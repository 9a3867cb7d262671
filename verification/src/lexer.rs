//! The lexical layer.
//!
//! `spec_tokens` defines, as a mathematical function of the character
//! sequence, the token stream of a text: runs of whitespace and commas
//! are discarded, identifiers and numbers take the longest match, a word
//! spelled like a keyword is the keyword, and a final end-of-input token
//! closes the stream. `tokenize` computes exactly that function, or the
//! exact error the definition gives.

use vstd::prelude::*;
use vstd::string::*;
use crate::errors::{ErrV, ErrorReason, ParseError, err_view};

verus! {

// ----------------------------------------------------------------------
// Character classes
// ----------------------------------------------------------------------

/// Insignificant separators: whitespace (space, tab, line feed, carriage
/// return) and the comma.
pub open spec fn is_sep_char(c: char) -> bool {
    c == ' ' || c == '\t' || c == '\n' || c == '\r' || c == ','
}

/// An ASCII decimal digit.
pub open spec fn is_digit_char(c: char) -> bool {
    48 <= c as u32 <= 57
}

/// A character that may open an identifier: an ASCII letter or `_`.
pub open spec fn is_ident_start_char(c: char) -> bool {
    (65 <= c as u32 <= 90) || (97 <= c as u32 <= 122) || c as u32 == 95
}

/// A character that may continue an identifier.
pub open spec fn is_ident_char(c: char) -> bool {
    is_ident_start_char(c) || is_digit_char(c)
}

/// A character that may continue a digit group: a digit or the group
/// separator `_`.
pub open spec fn is_num_char(c: char) -> bool {
    is_digit_char(c) || c == '_'
}

fn sep_e(c: char) -> (b: bool)
    ensures
        b == is_sep_char(c),
{
    c == ' ' || c == '\t' || c == '\n' || c == '\r' || c == ','
}

fn digit_e(c: char) -> (b: bool)
    ensures
        b == is_digit_char(c),
{
    let u = c as u32;
    48 <= u && u <= 57
}

fn ident_start_e(c: char) -> (b: bool)
    ensures
        b == is_ident_start_char(c),
{
    let u = c as u32;
    (65 <= u && u <= 90) || (97 <= u && u <= 122) || u == 95
}

fn ident_char_e(c: char) -> (b: bool)
    ensures
        b == is_ident_char(c),
{
    ident_start_e(c) || digit_e(c)
}

fn num_char_e(c: char) -> (b: bool)
    ensures
        b == is_num_char(c),
{
    digit_e(c) || c == '_'
}

// ----------------------------------------------------------------------
// Longest-match scanning
// ----------------------------------------------------------------------

/// The end of the identifier run that begins at `i`.
pub open spec fn ident_end(s: Seq<char>, i: int) -> int
    decreases s.len() - i,
{
    if 0 <= i < s.len() && is_ident_char(s[i]) {
        ident_end(s, i + 1)
    } else {
        i
    }
}

/// The end of the digit-group run that begins at `i`.
pub open spec fn num_end(s: Seq<char>, i: int) -> int
    decreases s.len() - i,
{
    if 0 <= i < s.len() && is_num_char(s[i]) {
        num_end(s, i + 1)
    } else {
        i
    }
}

/// The end of the plain digit run that begins at `i`.
pub open spec fn digits_end(s: Seq<char>, i: int) -> int
    decreases s.len() - i,
{
    if 0 <= i < s.len() && is_digit_char(s[i]) {
        digits_end(s, i + 1)
    } else {
        i
    }
}

// ----------------------------------------------------------------------
// Numeric text
// ----------------------------------------------------------------------

/// The value of one decimal digit.
pub open spec fn dval(c: char) -> int {
    c as u32 - 48
}

/// The value of a run of digits and group separators, separators
/// skipped.
pub open spec fn digits_val(t: Seq<char>) -> int
    decreases t.len(),
{
    if t.len() == 0 {
        0
    } else {
        let v = digits_val(t.drop_last());
        if t.last() == '_' {
            v
        } else {
            v * 10 + dval(t.last())
        }
    }
}

/// The text with every group separator `_` removed.
pub open spec fn no_underscores(t: Seq<char>) -> Seq<char>
    decreases t.len(),
{
    if t.len() == 0 {
        Seq::empty()
    } else {
        let r = no_underscores(t.drop_last());
        if t.last() == '_' {
            r
        } else {
            r.push(t.last())
        }
    }
}

/// Over digit-group text the value is never negative.
pub proof fn lemma_digits_val_nonneg(t: Seq<char>)
    requires
        forall|k: int| 0 <= k < t.len() ==> is_num_char(#[trigger] t[k]),
    ensures
        digits_val(t) >= 0,
    decreases t.len(),
{
    if t.len() > 0 {
        lemma_digits_val_nonneg(t.drop_last());
    }
}

/// Extending digit-group text never lowers its value.
pub proof fn lemma_digits_prefix_le(t: Seq<char>, m: int)
    requires
        forall|k: int| 0 <= k < t.len() ==> is_num_char(#[trigger] t[k]),
        0 <= m <= t.len(),
    ensures
        digits_val(t.subrange(0, m)) <= digits_val(t),
    decreases t.len() - m,
{
    if m < t.len() {
        assert(t.subrange(0, m + 1).drop_last() =~= t.subrange(0, m));
        lemma_digits_val_nonneg(t.subrange(0, m));
        lemma_digits_prefix_le(t, m + 1);
    } else {
        assert(t.subrange(0, m) =~= t);
    }
}

// ----------------------------------------------------------------------
// Tokens
// ----------------------------------------------------------------------

/// The kind of one significant token.
#[derive(Debug, PartialEq, Eq)]
pub enum TokenKind {
    LParen,
    RParen,
    LBrace,
    RBrace,
    Colon,
    Equal,
    FatArrow,
    Plus,
    Star,
    Slash,
    Percent,
    Caret,
    KwFn,
    KwLet,
    KwPragma,
    KwStruct,
    KwCase,
    KwMethod,
    Ident(String),
    Int(u64),
    Float(String),
    Eof,
}

/// One token with the character position at which it starts.
#[derive(Debug, PartialEq, Eq)]
pub struct Token {
    pub kind: TokenKind,
    pub pos: usize,
}

/// Abstraction of a token kind.
pub enum TokV {
    LParen,
    RParen,
    LBrace,
    RBrace,
    Colon,
    Equal,
    FatArrow,
    Plus,
    Star,
    Slash,
    Percent,
    Caret,
    KwFn,
    KwLet,
    KwPragma,
    KwStruct,
    KwCase,
    KwMethod,
    Ident(Seq<char>),
    Int(u64),
    Float(Seq<char>),
    Eof,
}

/// Abstraction of one token.
pub struct SpTok {
    pub kind: TokV,
    pub pos: int,
}

/// Abstraction of a token kind.
pub open spec fn kind_view(k: TokenKind) -> TokV {
    match k {
        TokenKind::LParen => TokV::LParen,
        TokenKind::RParen => TokV::RParen,
        TokenKind::LBrace => TokV::LBrace,
        TokenKind::RBrace => TokV::RBrace,
        TokenKind::Colon => TokV::Colon,
        TokenKind::Equal => TokV::Equal,
        TokenKind::FatArrow => TokV::FatArrow,
        TokenKind::Plus => TokV::Plus,
        TokenKind::Star => TokV::Star,
        TokenKind::Slash => TokV::Slash,
        TokenKind::Percent => TokV::Percent,
        TokenKind::Caret => TokV::Caret,
        TokenKind::KwFn => TokV::KwFn,
        TokenKind::KwLet => TokV::KwLet,
        TokenKind::KwPragma => TokV::KwPragma,
        TokenKind::KwStruct => TokV::KwStruct,
        TokenKind::KwCase => TokV::KwCase,
        TokenKind::KwMethod => TokV::KwMethod,
        TokenKind::Ident(t) => TokV::Ident(t@),
        TokenKind::Int(v) => TokV::Int(v),
        TokenKind::Float(t) => TokV::Float(t@),
        TokenKind::Eof => TokV::Eof,
    }
}

/// Abstraction of one token.
pub open spec fn tok_view(t: Token) -> SpTok {
    SpTok { kind: kind_view(t.kind), pos: t.pos as int }
}

/// Abstraction of a token sequence.
pub open spec fn toks_view(q: Seq<Token>) -> Seq<SpTok> {
    Seq::new(q.len(), |k: int| tok_view(q[k]))
}

proof fn lemma_toks_view_push(q: Seq<Token>, t: Token)
    ensures
        toks_view(q.push(t)) == toks_view(q).push(tok_view(t)),
{
    assert(toks_view(q.push(t)) =~= toks_view(q).push(tok_view(t)));
}

// ----------------------------------------------------------------------
// Keywords
// ----------------------------------------------------------------------

/// The keyword token a word spells, if it spells one. Identifiers never
/// collide with these: a word that matches is always the keyword.
pub open spec fn kw_token(t: Seq<char>) -> Option<TokV> {
    if t.len() == 2 && t[0] == 'f' && t[1] == 'n' {
        Option::Some(TokV::KwFn)
    } else if t.len() == 3 && t[0] == 'l' && t[1] == 'e' && t[2] == 't' {
        Option::Some(TokV::KwLet)
    } else if t.len() == 6 && t[0] == 'p' && t[1] == 'r' && t[2] == 'a' && t[3] == 'g' && t[4]
        == 'm' && t[5] == 'a' {
        Option::Some(TokV::KwPragma)
    } else if t.len() == 6 && t[0] == 's' && t[1] == 't' && t[2] == 'r' && t[3] == 'u' && t[4]
        == 'c' && t[5] == 't' {
        Option::Some(TokV::KwStruct)
    } else if t.len() == 4 && t[0] == 'c' && t[1] == 'a' && t[2] == 's' && t[3] == 'e' {
        Option::Some(TokV::KwCase)
    } else if t.len() == 6 && t[0] == 'm' && t[1] == 'e' && t[2] == 't' && t[3] == 'h' && t[4]
        == 'o' && t[5] == 'd' {
        Option::Some(TokV::KwMethod)
    } else {
        Option::None
    }
}

/// Looks up the keyword spelled by `chars[i..j]`, if any.
fn kw_lookup(chars: &Vec<char>, i: usize, j: usize) -> (r: Option<TokenKind>)
    requires
        i <= j <= chars@.len(),
    ensures
        match r {
            Option::Some(k) => kw_token(chars@.subrange(i as int, j as int)) == Option::Some(
                kind_view(k),
            ),
            Option::None => kw_token(chars@.subrange(i as int, j as int)) == Option::None::<TokV>,
        },
{
    let n = j - i;
    if n == 2 && chars[i] == 'f' && chars[i + 1] == 'n' {
        Option::Some(TokenKind::KwFn)
    } else if n == 3 && chars[i] == 'l' && chars[i + 1] == 'e' && chars[i + 2] == 't' {
        Option::Some(TokenKind::KwLet)
    } else if n == 6 && chars[i] == 'p' && chars[i + 1] == 'r' && chars[i + 2] == 'a' && chars[i
        + 3] == 'g' && chars[i + 4] == 'm' && chars[i + 5] == 'a' {
        Option::Some(TokenKind::KwPragma)
    } else if n == 6 && chars[i] == 's' && chars[i + 1] == 't' && chars[i + 2] == 'r' && chars[i
        + 3] == 'u' && chars[i + 4] == 'c' && chars[i + 5] == 't' {
        Option::Some(TokenKind::KwStruct)
    } else if n == 4 && chars[i] == 'c' && chars[i + 1] == 'a' && chars[i + 2] == 's' && chars[i
        + 3] == 'e' {
        Option::Some(TokenKind::KwCase)
    } else if n == 6 && chars[i] == 'm' && chars[i + 1] == 'e' && chars[i + 2] == 't' && chars[i
        + 3] == 'h' && chars[i + 4] == 'o' && chars[i + 5] == 'd' {
        Option::Some(TokenKind::KwMethod)
    } else {
        Option::None
    }
}

// ----------------------------------------------------------------------
// The token stream of a text
// ----------------------------------------------------------------------

/// Prepends a token to a tokenization outcome.
pub open spec fn lex_cons(t: SpTok, r: Result<Seq<SpTok>, ErrV>) -> Result<Seq<SpTok>, ErrV> {
    match r {
        Result::Ok(rest) => Result::Ok(seq![t] + rest),
        Result::Err(e) => Result::Err(e),
    }
}

/// Prepends already-recognized tokens to a tokenization outcome.
pub open spec fn lex_join(ts: Seq<SpTok>, r: Result<Seq<SpTok>, ErrV>) -> Result<
    Seq<SpTok>,
    ErrV,
> {
    match r {
        Result::Ok(rest) => Result::Ok(ts + rest),
        Result::Err(e) => Result::Err(e),
    }
}

/// The identifier-or-keyword token that begins at `i`, and its end.
pub open spec fn sp_ident_token(s: Seq<char>, i: int) -> (SpTok, int) {
    let j = ident_end(s, i);
    let text = s.subrange(i, j);
    let kind = match kw_token(text) {
        Option::Some(k) => k,
        Option::None => TokV::Ident(text),
    };
    (SpTok { kind, pos: i }, j)
}

/// The numeric token that begins at `i`, and its end; or the error the
/// literal earns. A decimal point followed by a digit makes the literal
/// a float, and `e` followed by a digit appends an exponent. A signed
/// integer literal (the tree holds unsigned 64-bit integers) and an
/// integer literal beyond that range are errors.
pub open spec fn sp_num_token(s: Seq<char>, i: int) -> Result<(SpTok, int), ErrV> {
    let neg = s[i] == '-';
    let d0 = if neg {
        i + 1
    } else {
        i
    };
    let j1 = num_end(s, d0);
    let isf = j1 < s.len() && s[j1] == '.' && j1 + 1 < s.len() && is_digit_char(s[j1 + 1]);
    if isf {
        let j2 = num_end(s, j1 + 1);
        let ise = j2 < s.len() && s[j2] == 'e' && j2 + 1 < s.len() && is_digit_char(s[j2 + 1]);
        let jf = if ise {
            digits_end(s, j2 + 1)
        } else {
            j2
        };
        Result::Ok((SpTok { kind: TokV::Float(no_underscores(s.subrange(i, jf))), pos: i }, jf))
    } else if neg {
        Result::Err(ErrV { pos: i, reason: ErrorReason::NegativeInt })
    } else {
        let v = digits_val(s.subrange(d0, j1));
        if v > u64::MAX as int {
            Result::Err(ErrV { pos: i, reason: ErrorReason::IntTooLarge })
        } else {
            Result::Ok((SpTok { kind: TokV::Int(v as u64), pos: i }, j1))
        }
    }
}

/// The symbol token that begins at `i`, and its end; or the error for a
/// position where no rule matches.
pub open spec fn sp_sym_token(s: Seq<char>, i: int) -> Result<(SpTok, int), ErrV> {
    let c = s[i];
    if c == '=' {
        if i + 1 < s.len() && s[i + 1] == '>' {
            Result::Ok((SpTok { kind: TokV::FatArrow, pos: i }, i + 2))
        } else {
            Result::Ok((SpTok { kind: TokV::Equal, pos: i }, i + 1))
        }
    } else if c == '(' {
        Result::Ok((SpTok { kind: TokV::LParen, pos: i }, i + 1))
    } else if c == ')' {
        Result::Ok((SpTok { kind: TokV::RParen, pos: i }, i + 1))
    } else if c == '{' {
        Result::Ok((SpTok { kind: TokV::LBrace, pos: i }, i + 1))
    } else if c == '}' {
        Result::Ok((SpTok { kind: TokV::RBrace, pos: i }, i + 1))
    } else if c == ':' {
        Result::Ok((SpTok { kind: TokV::Colon, pos: i }, i + 1))
    } else if c == '+' {
        Result::Ok((SpTok { kind: TokV::Plus, pos: i }, i + 1))
    } else if c == '*' {
        Result::Ok((SpTok { kind: TokV::Star, pos: i }, i + 1))
    } else if c == '/' {
        Result::Ok((SpTok { kind: TokV::Slash, pos: i }, i + 1))
    } else if c == '%' {
        Result::Ok((SpTok { kind: TokV::Percent, pos: i }, i + 1))
    } else if c == '^' {
        Result::Ok((SpTok { kind: TokV::Caret, pos: i }, i + 1))
    } else {
        Result::Err(ErrV { pos: i, reason: ErrorReason::UnexpectedChar })
    }
}

/// The token stream of `s` from position `i` on: separators are skipped,
/// each token takes the longest match of its rule, and the stream ends
/// with an end-of-input token.
pub open spec fn sp_lex(s: Seq<char>, i: int) -> Result<Seq<SpTok>, ErrV>
    decreases s.len() - i,
{
    if i >= s.len() || i < 0 {
        Result::Ok(seq![SpTok { kind: TokV::Eof, pos: s.len() as int }])
    } else {
        let c = s[i];
        if is_sep_char(c) {
            sp_lex(s, i + 1)
        } else if is_ident_start_char(c) {
            let (t, j) = sp_ident_token(s, i);
            if i < j <= s.len() {
                lex_cons(t, sp_lex(s, j))
            } else {
                Result::Err(ErrV { pos: i, reason: ErrorReason::UnexpectedChar })
            }
        } else if is_digit_char(c) || (c == '-' && i + 1 < s.len() && is_digit_char(s[i + 1])) {
            match sp_num_token(s, i) {
                Result::Ok((t, j)) => if i < j <= s.len() {
                    lex_cons(t, sp_lex(s, j))
                } else {
                    Result::Err(ErrV { pos: i, reason: ErrorReason::UnexpectedChar })
                },
                Result::Err(e) => Result::Err(e),
            }
        } else {
            match sp_sym_token(s, i) {
                Result::Ok((t, j)) => if i < j <= s.len() {
                    lex_cons(t, sp_lex(s, j))
                } else {
                    Result::Err(ErrV { pos: i, reason: ErrorReason::UnexpectedChar })
                },
                Result::Err(e) => Result::Err(e),
            }
        }
    }
}

/// The token stream of a whole text.
pub open spec fn spec_tokens(s: Seq<char>) -> Result<Seq<SpTok>, ErrV> {
    sp_lex(s, 0)
}

/// Separators are insignificant: at a whitespace or comma character the
/// token stream is the token stream of what follows it, so any run of
/// separators between two tokens is discarded without a trace.
pub proof fn lemma_separator_skipped(s: Seq<char>, i: int)
    requires
        0 <= i < s.len(),
        is_sep_char(s[i]),
    ensures
        sp_lex(s, i) == sp_lex(s, i + 1),
{
}

// ----------------------------------------------------------------------
// The tokenizer
// ----------------------------------------------------------------------

proof fn lemma_join_cons(a: Seq<SpTok>, t: SpTok, r: Result<Seq<SpTok>, ErrV>)
    ensures
        lex_join(a, lex_cons(t, r)) == lex_join(a.push(t), r),
{
    match r {
        Result::Ok(rest) => {
            assert(a + (seq![t] + rest) =~= a.push(t) + rest);
        },
        Result::Err(_) => {},
    }
}

proof fn lemma_push_step(s: Seq<char>, acc: Seq<Token>, t: Token, i: int, j: int)
    requires
        sp_lex(s, 0) == lex_join(toks_view(acc), sp_lex(s, i)),
        sp_lex(s, i) == lex_cons(tok_view(t), sp_lex(s, j)),
    ensures
        sp_lex(s, 0) == lex_join(toks_view(acc.push(t)), sp_lex(s, j)),
{
    lemma_toks_view_push(acc, t);
    lemma_join_cons(toks_view(acc), tok_view(t), sp_lex(s, j));
}

/// Recognizes the identifier or keyword token that begins at `i`.
fn lex_ident(code: &str, chars: &Vec<char>, i: usize) -> (r: (Token, usize))
    requires
        chars@ == code@,
        i < chars@.len(),
        is_ident_start_char(chars@[i as int]),
    ensures
        sp_ident_token(code@, i as int) == (tok_view(r.0), r.1 as int),
        i < r.1 <= chars@.len(),
{
    let ghost s = code@;
    let n = chars.len();
    proof {
        assert(ident_end(s, i as int) == ident_end(s, i + 1));
    }
    let mut j: usize = i + 1;
    while j < n && ident_char_e(chars[j])
        invariant
            chars@ == s,
            s == code@,
            n == s.len(),
            i < j <= n,
            ident_end(s, i as int) == ident_end(s, j as int),
        decreases n - j,
    {
        proof {
            assert(ident_end(s, j as int) == ident_end(s, j + 1));
        }
        j = j + 1;
    }
    proof {
        assert(ident_end(s, j as int) == j as int);
    }
    let kind = match kw_lookup(chars, i, j) {
        Option::Some(k) => k,
        Option::None => TokenKind::Ident(code.substring_char(i, j).to_owned()),
    };
    (Token { kind, pos: i }, j)
}

/// Recognizes the numeric token that begins at `i`, or reports the error
/// its text earns.
fn lex_number(code: &str, chars: &Vec<char>, i: usize) -> (r: Result<(Token, usize), ParseError>)
    requires
        chars@ == code@,
        i < chars@.len(),
        is_digit_char(chars@[i as int]) || (chars@[i as int] == '-' && i + 1 < chars@.len()
            && is_digit_char(chars@[i + 1])),
    ensures
        match r {
            Result::Ok(p) => sp_num_token(code@, i as int) == Result::Ok::<(SpTok, int), ErrV>(
                (tok_view(p.0), p.1 as int),
            ) && i < p.1 <= chars@.len(),
            Result::Err(e) => sp_num_token(code@, i as int) == Result::Err::<(SpTok, int), ErrV>(
                err_view(e),
            ),
        },
{
    let ghost s = code@;
    let n = chars.len();
    let c = chars[i];
    let neg = c == '-';
    let d0: usize = if neg {
        i + 1
    } else {
        i
    };
    proof {
        assert(num_end(s, d0 as int) == num_end(s, d0 + 1));
    }
    let mut j: usize = d0 + 1;
    while j < n && num_char_e(chars[j])
        invariant
            chars@ == s,
            s == code@,
            n == s.len(),
            d0 < j <= n,
            num_end(s, d0 as int) == num_end(s, j as int),
            forall|k: int| d0 <= k < j ==> is_num_char(#[trigger] s[k]),
        decreases n - j,
    {
        proof {
            assert(num_end(s, j as int) == num_end(s, j + 1));
        }
        j = j + 1;
    }
    proof {
        assert(num_end(s, j as int) == j as int);
    }
    let isf = j < n && chars[j] == '.' && j + 1 < n && digit_e(chars[j + 1]);
    if isf {
        proof {
            assert(num_end(s, j + 1) == num_end(s, j + 2));
        }
        let mut k: usize = j + 2;
        while k < n && num_char_e(chars[k])
            invariant
                chars@ == s,
                s == code@,
                n == s.len(),
                j + 1 < k <= n,
                num_end(s, j + 1) == num_end(s, k as int),
            decreases n - k,
        {
            proof {
                assert(num_end(s, k as int) == num_end(s, k + 1));
            }
            k = k + 1;
        }
        proof {
            assert(num_end(s, k as int) == k as int);
        }
        let ise = k < n && chars[k] == 'e' && k + 1 < n && digit_e(chars[k + 1]);
        let mut jf: usize = k;
        if ise {
            proof {
                assert(digits_end(s, k + 1) == digits_end(s, k + 2));
            }
            let mut m: usize = k + 2;
            while m < n && digit_e(chars[m])
                invariant
                    chars@ == s,
                    s == code@,
                    n == s.len(),
                    k + 1 < m <= n,
                    digits_end(s, k + 1) == digits_end(s, m as int),
                decreases n - m,
            {
                proof {
                    assert(digits_end(s, m as int) == digits_end(s, m + 1));
                }
                m = m + 1;
            }
            proof {
                assert(digits_end(s, m as int) == m as int);
            }
            jf = m;
        }
        let text = strip_underscores(code, chars, i, jf);
        Result::Ok((Token { kind: TokenKind::Float(text), pos: i }, jf))
    } else if neg {
        Result::Err(ParseError { position: i, reason: ErrorReason::NegativeInt })
    } else {
        let ghost tslice = s.subrange(d0 as int, j as int);
        let mut v: u64 = 0;
        let mut p: usize = d0;
        while p < j
            invariant
                chars@ == s,
                s == code@,
                n == s.len(),
                d0 <= p <= j,
                j <= n,
                forall|k: int| d0 <= k < j ==> is_num_char(#[trigger] s[k]),
                tslice == s.subrange(d0 as int, j as int),
                v as int == digits_val(s.subrange(d0 as int, p as int)),
                d0 == i,
                i < s.len(),
                s[i as int] != '-',
                num_end(s, d0 as int) == j as int,
                !(j < n && s[j as int] == '.' && j + 1 < n && is_digit_char(s[j + 1])),
            decreases j - p,
        {
            let ch = chars[p];
            proof {
                assert(s.subrange(d0 as int, p + 1).drop_last() =~= s.subrange(
                    d0 as int,
                    p as int,
                ));
            }
            if ch != '_' {
                proof {
                    assert(is_num_char(s[p as int]));
                    assert(is_digit_char(ch));
                }
                let d: u64 = (ch as u32 - 48) as u64;
                let step = match v.checked_mul(10) {
                    Option::Some(w) => w.checked_add(d),
                    Option::None => Option::None,
                };
                match step {
                    Option::Some(w) => {
                        v = w;
                    },
                    Option::None => {
                        proof {
                            assert(digits_val(s.subrange(d0 as int, p + 1)) > u64::MAX as int);
                            assert(tslice.subrange(0, p + 1 - d0) =~= s.subrange(
                                d0 as int,
                                p + 1,
                            ));
                            lemma_digits_prefix_le(tslice, p + 1 - d0);
                        }
                        return Result::Err(
                            ParseError { position: i, reason: ErrorReason::IntTooLarge },
                        );
                    },
                }
            }
            p = p + 1;
        }
        proof {
            assert(s.subrange(d0 as int, j as int) == tslice);
        }
        Result::Ok((Token { kind: TokenKind::Int(v), pos: i }, j))
    }
}

/// Copies `chars[i..j]` into a fresh string, leaving every `_` out.
fn strip_underscores(code: &str, chars: &Vec<char>, i: usize, j: usize) -> (text: String)
    requires
        chars@ == code@,
        i <= j <= chars@.len(),
    ensures
        text@ == no_underscores(code@.subrange(i as int, j as int)),
{
    let ghost s = code@;
    let mut text = String::new();
    let mut p: usize = i;
    while p < j
        invariant
            chars@ == s,
            s == code@,
            i <= p <= j,
            j <= s.len(),
            text@ == no_underscores(s.subrange(i as int, p as int)),
        decreases j - p,
    {
        proof {
            assert(s.subrange(i as int, p + 1).drop_last() =~= s.subrange(i as int, p as int));
        }
        if chars[p] != '_' {
            let piece = code.substring_char(p, p + 1);
            proof {
                assert(piece@ =~= seq![s[p as int]]);
            }
            text.append(piece);
        }
        p = p + 1;
    }
    text
}

/// Recognizes the symbol token that begins at `i`, or reports that no
/// rule matches there.
fn lex_symbol(chars: &Vec<char>, i: usize) -> (r: Result<(Token, usize), ParseError>)
    requires
        i < chars@.len(),
    ensures
        match r {
            Result::Ok(p) => sp_sym_token(chars@, i as int) == Result::Ok::<(SpTok, int), ErrV>(
                (tok_view(p.0), p.1 as int),
            ) && i < p.1 <= chars@.len(),
            Result::Err(e) => sp_sym_token(chars@, i as int) == Result::Err::<(SpTok, int), ErrV>(
                err_view(e),
            ),
        },
{
    let n = chars.len();
    let c = chars[i];
    if c == '=' {
        if i + 1 < n && chars[i + 1] == '>' {
            Result::Ok((Token { kind: TokenKind::FatArrow, pos: i }, i + 2))
        } else {
            Result::Ok((Token { kind: TokenKind::Equal, pos: i }, i + 1))
        }
    } else if c == '(' {
        Result::Ok((Token { kind: TokenKind::LParen, pos: i }, i + 1))
    } else if c == ')' {
        Result::Ok((Token { kind: TokenKind::RParen, pos: i }, i + 1))
    } else if c == '{' {
        Result::Ok((Token { kind: TokenKind::LBrace, pos: i }, i + 1))
    } else if c == '}' {
        Result::Ok((Token { kind: TokenKind::RBrace, pos: i }, i + 1))
    } else if c == ':' {
        Result::Ok((Token { kind: TokenKind::Colon, pos: i }, i + 1))
    } else if c == '+' {
        Result::Ok((Token { kind: TokenKind::Plus, pos: i }, i + 1))
    } else if c == '*' {
        Result::Ok((Token { kind: TokenKind::Star, pos: i }, i + 1))
    } else if c == '/' {
        Result::Ok((Token { kind: TokenKind::Slash, pos: i }, i + 1))
    } else if c == '%' {
        Result::Ok((Token { kind: TokenKind::Percent, pos: i }, i + 1))
    } else if c == '^' {
        Result::Ok((Token { kind: TokenKind::Caret, pos: i }, i + 1))
    } else {
        Result::Err(ParseError { position: i, reason: ErrorReason::UnexpectedChar })
    }
}

/// Recognizes the token stream of `code`; `chars` holds the same text
/// character by character. The result is exactly the stream that
/// [`spec_tokens`] assigns to the text, or exactly the error it gives.
pub fn tokenize(code: &str, chars: &Vec<char>) -> (r: Result<Vec<Token>, ParseError>)
    requires
        chars@ == code@,
    ensures
        match r {
            Result::Ok(ts) => spec_tokens(code@) == Result::Ok::<Seq<SpTok>, ErrV>(
                toks_view(ts@),
            ),
            Result::Err(e) => spec_tokens(code@) == Result::Err::<Seq<SpTok>, ErrV>(err_view(e)),
        },
{
    let ghost s = code@;
    let n = chars.len();
    let mut acc: Vec<Token> = Vec::new();
    let mut i: usize = 0;
    while i < n
        invariant
            chars@ == s,
            s == code@,
            n == s.len(),
            i <= n,
            sp_lex(s, 0) == lex_join(toks_view(acc@), sp_lex(s, i as int)),
        decreases n - i,
    {
        let c = chars[i];
        if sep_e(c) {
            proof {
                assert(sp_lex(s, i as int) == sp_lex(s, i + 1));
            }
            i = i + 1;
        } else if ident_start_e(c) {
            let (t, j) = lex_ident(code, chars, i);
            proof {
                assert(sp_lex(s, i as int) == lex_cons(tok_view(t), sp_lex(s, j as int)));
                lemma_push_step(s, acc@, t, i as int, j as int);
            }
            acc.push(t);
            i = j;
        } else if digit_e(c) || (c == '-' && i + 1 < n && digit_e(chars[i + 1])) {
            match lex_number(code, chars, i) {
                Result::Ok((t, j)) => {
                    proof {
                        assert(sp_lex(s, i as int) == lex_cons(tok_view(t), sp_lex(s, j as int)));
                        lemma_push_step(s, acc@, t, i as int, j as int);
                    }
                    acc.push(t);
                    i = j;
                },
                Result::Err(e) => {
                    proof {
                        assert(sp_lex(s, i as int) == Result::Err::<Seq<SpTok>, ErrV>(
                            err_view(e),
                        ));
                    }
                    return Result::Err(e);
                },
            }
        } else {
            match lex_symbol(chars, i) {
                Result::Ok((t, j)) => {
                    proof {
                        assert(sp_lex(s, i as int) == lex_cons(tok_view(t), sp_lex(s, j as int)));
                        lemma_push_step(s, acc@, t, i as int, j as int);
                    }
                    acc.push(t);
                    i = j;
                },
                Result::Err(e) => {
                    proof {
                        assert(sp_lex(s, i as int) == Result::Err::<Seq<SpTok>, ErrV>(
                            err_view(e),
                        ));
                    }
                    return Result::Err(e);
                },
            }
        }
    }
    let eof = Token { kind: TokenKind::Eof, pos: n };
    proof {
        lemma_toks_view_push(acc@, eof);
        assert(toks_view(acc@) + seq![tok_view(eof)] =~= toks_view(acc@).push(tok_view(eof)));
    }
    acc.push(eof);
    Result::Ok(acc)
}

} // verus!
