//! The grammar and the parser.
//!
//! The `sp_*` functions define, over the token stream, what every
//! grammar rule accepts and which tree it builds: recursive descent with
//! precedence climbing for binary arithmetic. The `p_*` functions
//! compute exactly those definitions on the exec-level tokens, and
//! [`parse`] ties them to the text: its result is a function of the
//! character sequence alone.
//!
//! Each rule's position arguments only grow, so the definitions recurse
//! on the number of tokens left, with a fixed per-rule tie-breaker for
//! calls that stay in place. Branches guarded by `i < j` where a
//! sub-rule has already consumed tokens are never taken; they only keep
//! the definitions total.

use vstd::prelude::*;
use crate::ast::{
    Assign, AssignV, Block, BlockV, Expr, ExprV, Func, FuncV, Hint, Ident, Let, LetQual, LetV,
    LitV, Literal, Op, Pragma, PragmaV, Record, RecordV, assign_view, assigns_view, bin_v,
    block_view, expr_view, exprs_view, lemma_assigns_view_push, lemma_exprs_view_push, opt_expr_view,
    lemma_wf_assigns_push, lemma_wf_exprs_push, record_view, wf_assign, wf_assigns, wf_opt_expr,
    wf_block, wf_expr, wf_exprs, wf_record,
};
use crate::errors::{ErrV, ErrorReason, ParseError, err_view, errs_view};
use crate::lexer::{SpTok, TokV, Token, TokenKind, kind_view, spec_tokens, tokenize, toks_view};
use vstd::string::*;

verus! {

// ----------------------------------------------------------------------
// Token stream access
// ----------------------------------------------------------------------

/// The kind of the token at `i`; end-of-input outside the stream.
pub open spec fn tk(ts: Seq<SpTok>, i: int) -> TokV {
    if 0 <= i < ts.len() {
        ts[i].kind
    } else {
        TokV::Eof
    }
}

/// The source position of the token at `i`; zero outside the stream.
pub open spec fn tpos(ts: Seq<SpTok>, i: int) -> int {
    if 0 <= i < ts.len() {
        ts[i].pos
    } else {
        0
    }
}

/// The precedence level of a binary operator token; zero for any other
/// token. Higher binds tighter: `^` above `*`, `/`, `%`, above `+`.
pub open spec fn prec_of(k: TokV) -> int {
    match k {
        TokV::Plus => 1,
        TokV::Star => 2,
        TokV::Slash => 2,
        TokV::Percent => 2,
        TokV::Caret => 3,
        _ => 0,
    }
}

/// The operator a binary operator token denotes. The grammar gives the
/// subtraction rule the same symbol as addition, so `+` denotes
/// addition and no token denotes subtraction.
pub open spec fn op_of(k: TokV) -> Op {
    match k {
        TokV::Star => Op::Mul,
        TokV::Slash => Op::Div,
        TokV::Percent => Op::Mod,
        TokV::Caret => Op::Exp,
        _ => Op::Add,
    }
}

/// Whether a token may open an expression. The leading tokens of the
/// grammar rules are disjoint, so at most one rule applies at any
/// position.
pub open spec fn can_start_expr(k: TokV) -> bool {
    match k {
        TokV::Int(_) => true,
        TokV::Float(_) => true,
        TokV::Ident(_) => true,
        TokV::LParen => true,
        TokV::LBrace => true,
        TokV::FatArrow => true,
        TokV::KwFn => true,
        TokV::KwLet => true,
        TokV::KwPragma => true,
        TokV::KwStruct => true,
        _ => false,
    }
}

/// Whether a token opens a block.
pub open spec fn is_block_start(k: TokV) -> bool {
    k is LBrace || k is FatArrow
}

// ----------------------------------------------------------------------
// The grammar
// ----------------------------------------------------------------------

/// A maximal arithmetic expression at minimum precedence `min_prec`: a
/// primary expression, then precedence climbing over what follows.
pub open spec fn sp_expr(ts: Seq<SpTok>, i: int, min_prec: int) -> Result<(ExprV, int), ErrV>
    decreases ts.len() - i, 2int,
{
    match sp_primary(ts, i) {
        Result::Ok((lhs, j)) => if i < j <= ts.len() {
            sp_climb(ts, lhs, j, min_prec)
        } else {
            Result::Ok((lhs, j))
        },
        Result::Err(e) => Result::Err(e),
    }
}

/// Precedence climbing: while an operator at or above `min_prec`
/// follows, parse its right operand at a strictly higher minimum, so
/// that equal levels nest to the left.
pub open spec fn sp_climb(ts: Seq<SpTok>, lhs: ExprV, i: int, min_prec: int) -> Result<
    (ExprV, int),
    ErrV,
>
    decreases ts.len() - i, 0int,
{
    let p = prec_of(tk(ts, i));
    if 0 <= i < ts.len() && p >= min_prec {
        match sp_expr(ts, i + 1, p + 1) {
            Result::Ok((rhs, j)) => {
                let combined = bin_v(op_of(tk(ts, i)), lhs, rhs);
                if i < j <= ts.len() {
                    sp_climb(ts, combined, j, min_prec)
                } else {
                    Result::Ok((combined, j))
                }
            },
            Result::Err(e) => Result::Err(e),
        }
    } else {
        Result::Ok((lhs, i))
    }
}

/// One primary (non-binary) expression: the rule chosen by the leading
/// token. An identifier immediately followed by a record is a function
/// call; alone it is a lookup.
pub open spec fn sp_primary(ts: Seq<SpTok>, i: int) -> Result<(ExprV, int), ErrV>
    decreases ts.len() - i, 1int,
{
    if !(0 <= i < ts.len()) {
        Result::Err(ErrV { pos: tpos(ts, i), reason: ErrorReason::ExpectedExpr })
    } else {
        match tk(ts, i) {
            TokV::Int(v) => Result::Ok((ExprV::Literal(LitV::Int(v)), i + 1)),
            TokV::Float(t) => Result::Ok((ExprV::Literal(LitV::Float(t)), i + 1)),
            TokV::Ident(name) => if tk(ts, i + 1) is LParen {
                match sp_record(ts, i + 1) {
                    Result::Ok((rv, j)) => Result::Ok((ExprV::FunCall(name, rv), j)),
                    Result::Err(e) => Result::Err(e),
                }
            } else {
                Result::Ok((ExprV::Lookup(name), i + 1))
            },
            TokV::LParen => match sp_record(ts, i) {
                Result::Ok((rv, j)) => Result::Ok((ExprV::Record(rv), j)),
                Result::Err(e) => Result::Err(e),
            },
            TokV::LBrace => match sp_body_items(ts, i + 1, Seq::empty()) {
                Result::Ok((es, j)) => Result::Ok((ExprV::Block(BlockV::Body(es)), j)),
                Result::Err(e) => Result::Err(e),
            },
            TokV::FatArrow => match sp_expr(ts, i + 1, 1) {
                Result::Ok((e, j)) => Result::Ok((ExprV::Block(BlockV::Arrow(seq![e])), j)),
                Result::Err(e) => Result::Err(e),
            },
            TokV::KwStruct => match sp_block(ts, i + 1) {
                Result::Ok((b, j)) => Result::Ok((ExprV::Struct(b), j)),
                Result::Err(e) => Result::Err(e),
            },
            TokV::KwFn => sp_func(ts, i + 1),
            TokV::KwLet => sp_let(ts, i + 1),
            TokV::KwPragma => sp_pragma(ts, i + 1),
            _ => Result::Err(ErrV { pos: tpos(ts, i), reason: ErrorReason::ExpectedExpr }),
        }
    }
}

/// A record at an opening parenthesis: positional expressions, then
/// named assignments, then `)`. A record with no positional expression
/// is an error, even if it holds named assignments.
pub open spec fn sp_record(ts: Seq<SpTok>, i: int) -> Result<(RecordV, int), ErrV>
    decreases ts.len() - i, 0int,
{
    if !(0 <= i < ts.len()) {
        Result::Err(ErrV { pos: tpos(ts, i), reason: ErrorReason::ExpectedRParen })
    } else {
        match sp_pos_items(ts, i + 1, Seq::empty()) {
        Result::Ok((pos, j)) => if i < j <= ts.len() {
            match sp_named_items(ts, j, Seq::empty()) {
                Result::Ok((named, j2)) => if pos.len() >= 1 {
                    Result::Ok((RecordV { pos, named }, j2))
                } else {
                    Result::Err(ErrV { pos: tpos(ts, i), reason: ErrorReason::EmptyRecord })
                },
                Result::Err(e) => Result::Err(e),
            }
        } else {
            Result::Err(ErrV { pos: tpos(ts, i), reason: ErrorReason::ExpectedRParen })
        },
        Result::Err(e) => Result::Err(e),
        }
    }
}

/// The positional expressions of a record, gathered onto `acc`. They
/// end at `)`, or where a named assignment (a name followed by `:` or
/// `=`) begins.
pub open spec fn sp_pos_items(ts: Seq<SpTok>, i: int, acc: Seq<ExprV>) -> Result<
    (Seq<ExprV>, int),
    ErrV,
>
    decreases ts.len() - i, 3int,
{
    if !(0 <= i < ts.len()) || tk(ts, i) is Eof {
        Result::Err(ErrV { pos: tpos(ts, i), reason: ErrorReason::ExpectedRParen })
    } else if tk(ts, i) is RParen {
        Result::Ok((acc, i))
    } else if (tk(ts, i) is Ident) && (tk(ts, i + 1) is Colon || tk(ts, i + 1) is Equal) {
        Result::Ok((acc, i))
    } else {
        match sp_expr(ts, i, 1) {
            Result::Ok((e, j)) => if i < j <= ts.len() {
                sp_pos_items(ts, j, acc.push(e))
            } else {
                Result::Ok((acc.push(e), j))
            },
            Result::Err(er) => Result::Err(er),
        }
    }
}

/// The named assignments of a record, gathered onto `acc`, and the
/// closing `)`, which is consumed.
pub open spec fn sp_named_items(ts: Seq<SpTok>, i: int, acc: Seq<AssignV>) -> Result<
    (Seq<AssignV>, int),
    ErrV,
>
    decreases ts.len() - i, 1int,
{
    if !(0 <= i < ts.len()) {
        Result::Err(ErrV { pos: tpos(ts, i), reason: ErrorReason::ExpectedRParen })
    } else if tk(ts, i) is RParen {
        Result::Ok((acc, i + 1))
    } else if tk(ts, i) is Ident {
        match sp_assign(ts, i) {
            Result::Ok((a, j)) => if i < j <= ts.len() {
                sp_named_items(ts, j, acc.push(a))
            } else {
                Result::Ok((acc.push(a), j))
            },
            Result::Err(e) => Result::Err(e),
        }
    } else {
        Result::Err(ErrV { pos: tpos(ts, i), reason: ErrorReason::ExpectedRParen })
    }
}

/// One binding target: a name, an optional `:` hint, an optional `=`
/// initializer; hint and initializer are full expressions.
pub open spec fn sp_assign(ts: Seq<SpTok>, i: int) -> Result<(AssignV, int), ErrV>
    decreases ts.len() - i, 0int,
{
    match tk(ts, i) {
        TokV::Ident(name) => {
            let hinted = if tk(ts, i + 1) is Colon {
                match sp_expr(ts, i + 2, 1) {
                    Result::Ok((h, j)) => Result::Ok((seq![h], j)),
                    Result::Err(e) => Result::Err(e),
                }
            } else {
                Result::Ok((Seq::empty(), i + 1))
            };
            match hinted {
                Result::Ok((hint, j)) => if i < j <= ts.len() {
                    if tk(ts, j) is Equal {
                        match sp_expr(ts, j + 1, 1) {
                            Result::Ok((v, j2)) => Result::Ok(
                                (AssignV { name, hint, value: seq![v] }, j2),
                            ),
                            Result::Err(e) => Result::Err(e),
                        }
                    } else {
                        Result::Ok((AssignV { name, hint, value: Seq::empty() }, j))
                    }
                } else {
                    Result::Ok((AssignV { name, hint, value: Seq::empty() }, j))
                },
                Result::Err(e) => Result::Err(e),
            }
        },
        _ => Result::Err(ErrV { pos: tpos(ts, i), reason: ErrorReason::ExpectedIdent }),
    }
}

/// A block: `{` body `}` or `=>` followed by one expression.
pub open spec fn sp_block(ts: Seq<SpTok>, i: int) -> Result<(BlockV, int), ErrV>
    decreases ts.len() - i, 0int,
{
    if tk(ts, i) is LBrace {
        match sp_body_items(ts, i + 1, Seq::empty()) {
            Result::Ok((es, j)) => Result::Ok((BlockV::Body(es), j)),
            Result::Err(e) => Result::Err(e),
        }
    } else if tk(ts, i) is FatArrow {
        match sp_expr(ts, i + 1, 1) {
            Result::Ok((e, j)) => Result::Ok((BlockV::Arrow(seq![e]), j)),
            Result::Err(e) => Result::Err(e),
        }
    } else {
        Result::Err(ErrV { pos: tpos(ts, i), reason: ErrorReason::ExpectedBlock })
    }
}

/// The expressions of a brace-enclosed body, gathered onto `acc`, and
/// the closing `}`, which is consumed.
pub open spec fn sp_body_items(ts: Seq<SpTok>, i: int, acc: Seq<ExprV>) -> Result<
    (Seq<ExprV>, int),
    ErrV,
>
    decreases ts.len() - i, 3int,
{
    if !(0 <= i < ts.len()) || tk(ts, i) is Eof {
        Result::Err(ErrV { pos: tpos(ts, i), reason: ErrorReason::ExpectedRBrace })
    } else if tk(ts, i) is RBrace {
        Result::Ok((acc, i + 1))
    } else {
        match sp_expr(ts, i, 1) {
            Result::Ok((e, j)) => if i < j <= ts.len() {
                sp_body_items(ts, j, acc.push(e))
            } else {
                Result::Ok((acc.push(e), j))
            },
            Result::Err(er) => Result::Err(er),
        }
    }
}

/// A binding, after its `let`: optional qualifier, one binding target,
/// and, where an expression follows, the rest of the enclosing
/// sequence.
pub open spec fn sp_let(ts: Seq<SpTok>, i: int) -> Result<(ExprV, int), ErrV>
    decreases ts.len() - i, 1int,
{
    let qual = if tk(ts, i) is KwCase {
        Option::Some(LetQual::Case)
    } else if tk(ts, i) is KwMethod {
        Option::Some(LetQual::Method)
    } else {
        Option::None
    };
    let j0 = if qual is Some {
        i + 1
    } else {
        i
    };
    match sp_assign(ts, j0) {
        Result::Ok((a, j)) => if i < j <= ts.len() && can_start_expr(tk(ts, j)) {
            match sp_expr(ts, j, 1) {
                Result::Ok((r, j2)) => Result::Ok(
                    (ExprV::Let(LetV { qualifier: qual, assign: a, rest: seq![r] }), j2),
                ),
                Result::Err(e) => Result::Err(e),
            }
        } else {
            Result::Ok((ExprV::Let(LetV { qualifier: qual, assign: a, rest: Seq::empty() }), j))
        },
        Result::Err(e) => Result::Err(e),
    }
}

/// A directive, after its `pragma`: one binding target and, where an
/// expression follows, the rest of the enclosing sequence.
pub open spec fn sp_pragma(ts: Seq<SpTok>, i: int) -> Result<(ExprV, int), ErrV>
    decreases ts.len() - i, 1int,
{
    match sp_assign(ts, i) {
        Result::Ok((a, j)) => if i < j <= ts.len() && can_start_expr(tk(ts, j)) {
            match sp_expr(ts, j, 1) {
                Result::Ok((r, j2)) => Result::Ok(
                    (ExprV::Pragma(PragmaV { assign: a, rest: seq![r] }), j2),
                ),
                Result::Err(e) => Result::Err(e),
            }
        } else {
            Result::Ok((ExprV::Pragma(PragmaV { assign: a, rest: Seq::empty() }), j))
        },
        Result::Err(e) => Result::Err(e),
    }
}

/// A function literal, after its `fn`: an optional parameter record,
/// then either a block body; or one expression which, if a block
/// follows, is the return-type expression, and otherwise is itself the
/// arrow-form body.
pub open spec fn sp_func(ts: Seq<SpTok>, i: int) -> Result<(ExprV, int), ErrV>
    decreases ts.len() - i, 4int,
{
    let argsr = if tk(ts, i) is LParen {
        match sp_record(ts, i) {
            Result::Ok((rv, j)) => Result::Ok((Option::Some(rv), j)),
            Result::Err(e) => Result::Err(e),
        }
    } else {
        Result::Ok((Option::None::<RecordV>, i))
    };
    match argsr {
        Result::Ok((args, j)) => if i <= j <= ts.len() {
            if is_block_start(tk(ts, j)) {
                match sp_block(ts, j) {
                    Result::Ok((b, j2)) => Result::Ok(
                        (ExprV::Func(FuncV { args, ret: Seq::empty(), body: b }), j2),
                    ),
                    Result::Err(e) => Result::Err(e),
                }
            } else {
                match sp_expr(ts, j, 1) {
                    Result::Ok((e1, j2)) => if j < j2 <= ts.len() && is_block_start(
                        tk(ts, j2),
                    ) {
                        match sp_block(ts, j2) {
                            Result::Ok((b, j3)) => Result::Ok(
                                (ExprV::Func(FuncV { args, ret: seq![e1], body: b }), j3),
                            ),
                            Result::Err(e) => Result::Err(e),
                        }
                    } else {
                        Result::Ok(
                            (
                                ExprV::Func(
                                    FuncV {
                                        args,
                                        ret: Seq::empty(),
                                        body: BlockV::Arrow(seq![e1]),
                                    },
                                ),
                                j2,
                            ),
                        )
                    },
                    Result::Err(e) => Result::Err(e),
                }
            }
        } else {
            Result::Err(ErrV { pos: tpos(ts, i), reason: ErrorReason::ExpectedBlock })
        },
        Result::Err(e) => Result::Err(e),
    }
}

/// A whole program: one expression consuming every token before the
/// end-of-input token.
pub open spec fn sp_parse_toks(ts: Seq<SpTok>) -> Result<ExprV, ErrV> {
    match sp_expr(ts, 0, 1) {
        Result::Ok((e, j)) => if 0 <= j < ts.len() && ts[j].kind is Eof {
            Result::Ok(e)
        } else {
            Result::Err(ErrV { pos: tpos(ts, j), reason: ErrorReason::TrailingInput })
        },
        Result::Err(e) => Result::Err(e),
    }
}

/// What parsing a text means: tokenize it, parse one expression over
/// all of it. Failure carries a non-empty error sequence.
pub open spec fn sp_parse(s: Seq<char>) -> Result<ExprV, Seq<ErrV>> {
    match spec_tokens(s) {
        Result::Ok(ts) => match sp_parse_toks(ts) {
            Result::Ok(e) => Result::Ok(e),
            Result::Err(e) => Result::Err(seq![e]),
        },
        Result::Err(e) => Result::Err(seq![e]),
    }
}


// ----------------------------------------------------------------------
// Token kind tests
// ----------------------------------------------------------------------

fn is_lparen_e(k: &TokenKind) -> (b: bool)
    ensures
        b == (kind_view(*k) is LParen),
{
    matches!(k, TokenKind::LParen)
}

fn is_rparen_e(k: &TokenKind) -> (b: bool)
    ensures
        b == (kind_view(*k) is RParen),
{
    matches!(k, TokenKind::RParen)
}

fn is_lbrace_e(k: &TokenKind) -> (b: bool)
    ensures
        b == (kind_view(*k) is LBrace),
{
    matches!(k, TokenKind::LBrace)
}

fn is_rbrace_e(k: &TokenKind) -> (b: bool)
    ensures
        b == (kind_view(*k) is RBrace),
{
    matches!(k, TokenKind::RBrace)
}

fn is_colon_e(k: &TokenKind) -> (b: bool)
    ensures
        b == (kind_view(*k) is Colon),
{
    matches!(k, TokenKind::Colon)
}

fn is_equal_e(k: &TokenKind) -> (b: bool)
    ensures
        b == (kind_view(*k) is Equal),
{
    matches!(k, TokenKind::Equal)
}

fn is_fatarrow_e(k: &TokenKind) -> (b: bool)
    ensures
        b == (kind_view(*k) is FatArrow),
{
    matches!(k, TokenKind::FatArrow)
}

fn is_eof_e(k: &TokenKind) -> (b: bool)
    ensures
        b == (kind_view(*k) is Eof),
{
    matches!(k, TokenKind::Eof)
}

fn is_ident_e(k: &TokenKind) -> (b: bool)
    ensures
        b == (kind_view(*k) is Ident),
{
    matches!(k, TokenKind::Ident(_))
}

fn is_kwcase_e(k: &TokenKind) -> (b: bool)
    ensures
        b == (kind_view(*k) is KwCase),
{
    matches!(k, TokenKind::KwCase)
}

fn is_kwmethod_e(k: &TokenKind) -> (b: bool)
    ensures
        b == (kind_view(*k) is KwMethod),
{
    matches!(k, TokenKind::KwMethod)
}

fn block_start_e(k: &TokenKind) -> (b: bool)
    ensures
        b == is_block_start(kind_view(*k)),
{
    matches!(k, TokenKind::LBrace | TokenKind::FatArrow)
}

fn can_start_e(k: &TokenKind) -> (b: bool)
    ensures
        b == can_start_expr(kind_view(*k)),
{
    matches!(
        k,
        TokenKind::Int(_) | TokenKind::Float(_) | TokenKind::Ident(_) | TokenKind::LParen
            | TokenKind::LBrace | TokenKind::FatArrow | TokenKind::KwFn | TokenKind::KwLet
            | TokenKind::KwPragma | TokenKind::KwStruct
    )
}

fn prec_e(k: &TokenKind) -> (p: u32)
    ensures
        p as int == prec_of(kind_view(*k)),
        p <= 3,
{
    match k {
        TokenKind::Plus => 1,
        TokenKind::Star => 2,
        TokenKind::Slash => 2,
        TokenKind::Percent => 2,
        TokenKind::Caret => 3,
        _ => 0,
    }
}

/// Builds the binary node an operator token denotes.
fn mk_bin(k: &TokenKind, l: Expr, rgt: Expr) -> (e: Expr)
    ensures
        expr_view(e) == bin_v(op_of(kind_view(*k)), expr_view(l), expr_view(rgt)),
        wf_expr(l) && wf_expr(rgt) ==> wf_expr(e),
{
    match k {
        TokenKind::Star => Expr::Mul(Box::new(l), Box::new(rgt)),
        TokenKind::Slash => Expr::Div(Box::new(l), Box::new(rgt)),
        TokenKind::Percent => Expr::Mod(Box::new(l), Box::new(rgt)),
        TokenKind::Caret => Expr::Exp(Box::new(l), Box::new(rgt)),
        _ => Expr::Add(Box::new(l), Box::new(rgt)),
    }
}

// ----------------------------------------------------------------------
// The parser
// ----------------------------------------------------------------------

/// Parses a maximal arithmetic expression: exactly what [`sp_expr`]
/// defines at this position and minimum precedence.
fn p_expr(ts: &Vec<Token>, i: usize, min_prec: u32) -> (r: Result<(Expr, usize), ParseError>)
    requires
        i <= ts@.len(),
        1 <= min_prec <= 4,
    ensures
        match r {
            Result::Ok(p) => ({
                &&& sp_expr(toks_view(ts@), i as int, min_prec as int) == Result::Ok::<
                    (ExprV, int),
                    ErrV,
                >((expr_view(p.0), p.1 as int))
                &&& i < p.1 <= ts@.len()
                &&& wf_expr(p.0)
            }),
            Result::Err(e) => sp_expr(toks_view(ts@), i as int, min_prec as int) == Result::Err::<
                (ExprV, int),
                ErrV,
            >(err_view(e)),
        },
    decreases ts@.len() - i, 2int,
{
    match p_primary(ts, i) {
        Result::Ok((lhs, j)) => p_climb(ts, lhs, j, min_prec),
        Result::Err(e) => Result::Err(e),
    }
}

/// Climbs over following binary operators at or above `min_prec`,
/// folding them onto `lhs`: exactly what [`sp_climb`] defines.
fn p_climb(ts: &Vec<Token>, lhs: Expr, i: usize, min_prec: u32) -> (r: Result<
    (Expr, usize),
    ParseError,
>)
    requires
        i <= ts@.len(),
        1 <= min_prec <= 4,
        wf_expr(lhs),
    ensures
        match r {
            Result::Ok(p) => ({
                &&& sp_climb(toks_view(ts@), expr_view(lhs), i as int, min_prec as int)
                    == Result::Ok::<(ExprV, int), ErrV>((expr_view(p.0), p.1 as int))
                &&& i <= p.1 <= ts@.len()
                &&& wf_expr(p.0)
            }),
            Result::Err(e) => sp_climb(toks_view(ts@), expr_view(lhs), i as int, min_prec as int)
                == Result::Err::<(ExprV, int), ErrV>(err_view(e)),
        },
    decreases ts@.len() - i, 0int,
{
    if i < ts.len() {
        let p = prec_e(&ts[i].kind);
        if p >= min_prec {
            match p_expr(ts, i + 1, p + 1) {
                Result::Ok((rhs, j)) => {
                    let combined = mk_bin(&ts[i].kind, lhs, rhs);
                    p_climb(ts, combined, j, min_prec)
                },
                Result::Err(e) => Result::Err(e),
            }
        } else {
            Result::Ok((lhs, i))
        }
    } else {
        Result::Ok((lhs, i))
    }
}

/// Parses one primary expression: exactly what [`sp_primary`] defines.
#[verifier::rlimit(100)]
fn p_primary(ts: &Vec<Token>, i: usize) -> (r: Result<(Expr, usize), ParseError>)
    requires
        i <= ts@.len(),
    ensures
        match r {
            Result::Ok(p) => ({
                &&& sp_primary(toks_view(ts@), i as int) == Result::Ok::<(ExprV, int), ErrV>(
                    (expr_view(p.0), p.1 as int),
                )
                &&& i < p.1 <= ts@.len()
                &&& wf_expr(p.0)
            }),
            Result::Err(e) => sp_primary(toks_view(ts@), i as int) == Result::Err::<
                (ExprV, int),
                ErrV,
            >(err_view(e)),
        },
    decreases ts@.len() - i, 1int,
{
    proof {
        reveal_with_fuel(expr_view, 3);
        reveal_with_fuel(wf_expr, 3);
    }
    if i >= ts.len() {
        return Result::Err(ParseError { position: 0, reason: ErrorReason::ExpectedExpr });
    }
    match &ts[i].kind {
        TokenKind::Int(v) => {
            let val: u64 = *v;
            Result::Ok((Expr::Literal(Literal::Int(val)), i + 1))
        },
        TokenKind::Float(t) => {
            let txt = t.clone();
            Result::Ok((Expr::Literal(Literal::Float(txt)), i + 1))
        },
        TokenKind::Ident(nm) => {
            let name = nm.clone();
            if i + 1 < ts.len() && is_lparen_e(&ts[i + 1].kind) {
                match p_record(ts, i + 1) {
                    Result::Ok((rv, j)) => Result::Ok((Expr::FunCall(Ident(name), rv), j)),
                    Result::Err(e) => Result::Err(e),
                }
            } else {
                Result::Ok((Expr::Lookup(Ident(name)), i + 1))
            }
        },
        TokenKind::LParen => match p_record(ts, i) {
            Result::Ok((rv, j)) => Result::Ok((Expr::Record(rv), j)),
            Result::Err(e) => Result::Err(e),
        },
        TokenKind::LBrace => match p_body_items(ts, i + 1, Vec::new()) {
            Result::Ok((es, j)) => Result::Ok((Expr::Block(Block::Body(es)), j)),
            Result::Err(e) => Result::Err(e),
        },
        TokenKind::FatArrow => match p_expr(ts, i + 1, 1) {
            Result::Ok((e, j)) => Result::Ok((Expr::Block(Block::Arrow(Box::new(e))), j)),
            Result::Err(e) => Result::Err(e),
        },
        TokenKind::KwStruct => match p_block(ts, i + 1) {
            Result::Ok((b, j)) => Result::Ok((Expr::Struct(b), j)),
            Result::Err(e) => Result::Err(e),
        },
        TokenKind::KwFn => p_func(ts, i + 1),
        TokenKind::KwLet => p_let(ts, i + 1),
        TokenKind::KwPragma => p_pragma(ts, i + 1),
        _ => Result::Err(ParseError { position: ts[i].pos, reason: ErrorReason::ExpectedExpr }),
    }
}

/// Parses a record at an opening parenthesis: exactly what
/// [`sp_record`] defines. A successful record is well formed: it holds
/// at least one positional expression.
fn p_record(ts: &Vec<Token>, i: usize) -> (r: Result<(Record, usize), ParseError>)
    requires
        i <= ts@.len(),
    ensures
        match r {
            Result::Ok(p) => ({
                &&& sp_record(toks_view(ts@), i as int) == Result::Ok::<(RecordV, int), ErrV>(
                    (record_view(p.0), p.1 as int),
                )
                &&& i < p.1 <= ts@.len()
                &&& wf_record(p.0)
            }),
            Result::Err(e) => sp_record(toks_view(ts@), i as int) == Result::Err::<
                (RecordV, int),
                ErrV,
            >(err_view(e)),
        },
    decreases ts@.len() - i, 0int,
{
    if i >= ts.len() {
        return Result::Err(ParseError { position: 0, reason: ErrorReason::ExpectedRParen });
    }
    match p_pos_items(ts, i + 1, Vec::new()) {
        Result::Ok((pos, j)) => match p_named_items(ts, j, Vec::new()) {
            Result::Ok((named, j2)) => if pos.len() >= 1 {
                Result::Ok((Record { pos, named }, j2))
            } else {
                Result::Err(ParseError { position: ts[i].pos, reason: ErrorReason::EmptyRecord })
            },
            Result::Err(e) => Result::Err(e),
        },
        Result::Err(e) => Result::Err(e),
    }
}

/// Parses the positional expressions of a record onto `acc`: exactly
/// what [`sp_pos_items`] defines.
fn p_pos_items(ts: &Vec<Token>, i: usize, acc: Vec<Expr>) -> (r: Result<
    (Vec<Expr>, usize),
    ParseError,
>)
    requires
        i <= ts@.len(),
        wf_exprs(acc@),
    ensures
        match r {
            Result::Ok(p) => ({
                &&& sp_pos_items(toks_view(ts@), i as int, exprs_view(acc@)) == Result::Ok::<
                    (Seq<ExprV>, int),
                    ErrV,
                >((exprs_view(p.0@), p.1 as int))
                &&& i <= p.1 <= ts@.len()
                &&& wf_exprs(p.0@)
            }),
            Result::Err(e) => sp_pos_items(toks_view(ts@), i as int, exprs_view(acc@))
                == Result::Err::<(Seq<ExprV>, int), ErrV>(err_view(e)),
        },
    decreases ts@.len() - i, 3int,
{
    if i >= ts.len() || is_eof_e(&ts[i].kind) {
        let pos = if i < ts.len() {
            ts[i].pos
        } else {
            0
        };
        return Result::Err(ParseError { position: pos, reason: ErrorReason::ExpectedRParen });
    }
    if is_rparen_e(&ts[i].kind) {
        return Result::Ok((acc, i));
    }
    if is_ident_e(&ts[i].kind) && i + 1 < ts.len() && (is_colon_e(&ts[i + 1].kind) || is_equal_e(
        &ts[i + 1].kind,
    )) {
        return Result::Ok((acc, i));
    }
    match p_expr(ts, i, 1) {
        Result::Ok((e, j)) => {
            proof {
                lemma_exprs_view_push(acc@, e);
                lemma_wf_exprs_push(acc@, e);
            }
            let mut acc2 = acc;
            acc2.push(e);
            p_pos_items(ts, j, acc2)
        },
        Result::Err(er) => Result::Err(er),
    }
}

/// Parses the named assignments of a record onto `acc` and the closing
/// parenthesis: exactly what [`sp_named_items`] defines.
fn p_named_items(ts: &Vec<Token>, i: usize, acc: Vec<Assign>) -> (r: Result<
    (Vec<Assign>, usize),
    ParseError,
>)
    requires
        i <= ts@.len(),
        wf_assigns(acc@),
    ensures
        match r {
            Result::Ok(p) => ({
                &&& sp_named_items(toks_view(ts@), i as int, assigns_view(acc@)) == Result::Ok::<
                    (Seq<AssignV>, int),
                    ErrV,
                >((assigns_view(p.0@), p.1 as int))
                &&& i <= p.1 <= ts@.len()
                &&& wf_assigns(p.0@)
            }),
            Result::Err(e) => sp_named_items(toks_view(ts@), i as int, assigns_view(acc@))
                == Result::Err::<(Seq<AssignV>, int), ErrV>(err_view(e)),
        },
    decreases ts@.len() - i, 1int,
{
    if i >= ts.len() {
        return Result::Err(ParseError { position: 0, reason: ErrorReason::ExpectedRParen });
    }
    if is_rparen_e(&ts[i].kind) {
        return Result::Ok((acc, i + 1));
    }
    if is_ident_e(&ts[i].kind) {
        match p_assign(ts, i) {
            Result::Ok((a, j)) => {
                proof {
                    lemma_assigns_view_push(acc@, a);
                    lemma_wf_assigns_push(acc@, a);
                }
                let mut acc2 = acc;
                acc2.push(a);
                p_named_items(ts, j, acc2)
            },
            Result::Err(e) => Result::Err(e),
        }
    } else {
        Result::Err(ParseError { position: ts[i].pos, reason: ErrorReason::ExpectedRParen })
    }
}

/// Parses one binding target: exactly what [`sp_assign`] defines.
fn p_assign(ts: &Vec<Token>, i: usize) -> (r: Result<(Assign, usize), ParseError>)
    requires
        i <= ts@.len(),
    ensures
        match r {
            Result::Ok(p) => ({
                &&& sp_assign(toks_view(ts@), i as int) == Result::Ok::<(AssignV, int), ErrV>(
                    (assign_view(p.0), p.1 as int),
                )
                &&& i < p.1 <= ts@.len()
                &&& wf_assign(p.0)
            }),
            Result::Err(e) => sp_assign(toks_view(ts@), i as int) == Result::Err::<
                (AssignV, int),
                ErrV,
            >(err_view(e)),
        },
    decreases ts@.len() - i, 0int,
{
    if i >= ts.len() {
        return Result::Err(ParseError { position: 0, reason: ErrorReason::ExpectedIdent });
    }
    let name = match &ts[i].kind {
        TokenKind::Ident(nm) => nm.clone(),
        _ => {
            return Result::Err(
                ParseError { position: ts[i].pos, reason: ErrorReason::ExpectedIdent },
            );
        },
    };
    let hinted: Result<(Option<Hint>, usize), ParseError> = if i + 1 < ts.len() && is_colon_e(
        &ts[i + 1].kind,
    ) {
        match p_expr(ts, i + 2, 1) {
            Result::Ok((h, j)) => Result::Ok((Option::Some(Hint { value: Box::new(h) }), j)),
            Result::Err(e) => Result::Err(e),
        }
    } else {
        Result::Ok((Option::None, i + 1))
    };
    match hinted {
        Result::Ok((hint, j)) => {
            if j < ts.len() && is_equal_e(&ts[j].kind) {
                match p_expr(ts, j + 1, 1) {
                    Result::Ok((v, j2)) => Result::Ok(
                        (
                            Assign {
                                name: Ident(name),
                                hint,
                                value: Option::Some(Box::new(v)),
                            },
                            j2,
                        ),
                    ),
                    Result::Err(e) => Result::Err(e),
                }
            } else {
                Result::Ok((Assign { name: Ident(name), hint, value: Option::None }, j))
            }
        },
        Result::Err(e) => Result::Err(e),
    }
}

/// Parses a block: exactly what [`sp_block`] defines.
fn p_block(ts: &Vec<Token>, i: usize) -> (r: Result<(Block, usize), ParseError>)
    requires
        i <= ts@.len(),
    ensures
        match r {
            Result::Ok(p) => ({
                &&& sp_block(toks_view(ts@), i as int) == Result::Ok::<(BlockV, int), ErrV>(
                    (block_view(p.0), p.1 as int),
                )
                &&& i < p.1 <= ts@.len()
                &&& wf_block(p.0)
            }),
            Result::Err(e) => sp_block(toks_view(ts@), i as int) == Result::Err::<
                (BlockV, int),
                ErrV,
            >(err_view(e)),
        },
    decreases ts@.len() - i, 0int,
{
    if i < ts.len() && is_lbrace_e(&ts[i].kind) {
        match p_body_items(ts, i + 1, Vec::new()) {
            Result::Ok((es, j)) => Result::Ok((Block::Body(es), j)),
            Result::Err(e) => Result::Err(e),
        }
    } else if i < ts.len() && is_fatarrow_e(&ts[i].kind) {
        match p_expr(ts, i + 1, 1) {
            Result::Ok((e, j)) => Result::Ok((Block::Arrow(Box::new(e)), j)),
            Result::Err(e) => Result::Err(e),
        }
    } else {
        let pos = if i < ts.len() {
            ts[i].pos
        } else {
            0
        };
        Result::Err(ParseError { position: pos, reason: ErrorReason::ExpectedBlock })
    }
}

/// Parses the expressions of a brace-enclosed body onto `acc` and the
/// closing brace: exactly what [`sp_body_items`] defines.
fn p_body_items(ts: &Vec<Token>, i: usize, acc: Vec<Expr>) -> (r: Result<
    (Vec<Expr>, usize),
    ParseError,
>)
    requires
        i <= ts@.len(),
        wf_exprs(acc@),
    ensures
        match r {
            Result::Ok(p) => ({
                &&& sp_body_items(toks_view(ts@), i as int, exprs_view(acc@)) == Result::Ok::<
                    (Seq<ExprV>, int),
                    ErrV,
                >((exprs_view(p.0@), p.1 as int))
                &&& i <= p.1 <= ts@.len()
                &&& wf_exprs(p.0@)
            }),
            Result::Err(e) => sp_body_items(toks_view(ts@), i as int, exprs_view(acc@))
                == Result::Err::<(Seq<ExprV>, int), ErrV>(err_view(e)),
        },
    decreases ts@.len() - i, 3int,
{
    if i >= ts.len() || is_eof_e(&ts[i].kind) {
        let pos = if i < ts.len() {
            ts[i].pos
        } else {
            0
        };
        return Result::Err(ParseError { position: pos, reason: ErrorReason::ExpectedRBrace });
    }
    if is_rbrace_e(&ts[i].kind) {
        return Result::Ok((acc, i + 1));
    }
    match p_expr(ts, i, 1) {
        Result::Ok((e, j)) => {
            proof {
                lemma_exprs_view_push(acc@, e);
                lemma_wf_exprs_push(acc@, e);
            }
            let mut acc2 = acc;
            acc2.push(e);
            p_body_items(ts, j, acc2)
        },
        Result::Err(er) => Result::Err(er),
    }
}

/// Parses a binding after its `let` keyword: exactly what [`sp_let`]
/// defines.
#[verifier::rlimit(100)]
fn p_let(ts: &Vec<Token>, i: usize) -> (r: Result<(Expr, usize), ParseError>)
    requires
        i <= ts@.len(),
    ensures
        match r {
            Result::Ok(p) => ({
                &&& sp_let(toks_view(ts@), i as int) == Result::Ok::<(ExprV, int), ErrV>(
                    (expr_view(p.0), p.1 as int),
                )
                &&& i < p.1 <= ts@.len()
                &&& wf_expr(p.0)
            }),
            Result::Err(e) => sp_let(toks_view(ts@), i as int) == Result::Err::<
                (ExprV, int),
                ErrV,
            >(err_view(e)),
        },
    decreases ts@.len() - i, 1int,
{
    proof {
        reveal_with_fuel(expr_view, 3);
        reveal_with_fuel(wf_expr, 3);
    }
    let qual: Option<LetQual> = if i < ts.len() && is_kwcase_e(&ts[i].kind) {
        Option::Some(LetQual::Case)
    } else if i < ts.len() && is_kwmethod_e(&ts[i].kind) {
        Option::Some(LetQual::Method)
    } else {
        Option::None
    };
    let j0: usize = if qual.is_some() {
        i + 1
    } else {
        i
    };
    match p_assign(ts, j0) {
        Result::Ok((a, j)) => {
            if j < ts.len() && can_start_e(&ts[j].kind) {
                match p_expr(ts, j, 1) {
                    Result::Ok((rst, j2)) => Result::Ok(
                        (
                            Expr::Let(
                                Let {
                                    qualifier: qual,
                                    assign: a,
                                    rest: Option::Some(Box::new(rst)),
                                },
                            ),
                            j2,
                        ),
                    ),
                    Result::Err(e) => Result::Err(e),
                }
            } else {
                Result::Ok(
                    (Expr::Let(Let { qualifier: qual, assign: a, rest: Option::None }), j),
                )
            }
        },
        Result::Err(e) => Result::Err(e),
    }
}

/// Parses a directive after its `pragma` keyword: exactly what
/// [`sp_pragma`] defines.
#[verifier::rlimit(100)]
fn p_pragma(ts: &Vec<Token>, i: usize) -> (r: Result<(Expr, usize), ParseError>)
    requires
        i <= ts@.len(),
    ensures
        match r {
            Result::Ok(p) => ({
                &&& sp_pragma(toks_view(ts@), i as int) == Result::Ok::<(ExprV, int), ErrV>(
                    (expr_view(p.0), p.1 as int),
                )
                &&& i < p.1 <= ts@.len()
                &&& wf_expr(p.0)
            }),
            Result::Err(e) => sp_pragma(toks_view(ts@), i as int) == Result::Err::<
                (ExprV, int),
                ErrV,
            >(err_view(e)),
        },
    decreases ts@.len() - i, 1int,
{
    proof {
        reveal_with_fuel(expr_view, 3);
        reveal_with_fuel(wf_expr, 3);
    }
    match p_assign(ts, i) {
        Result::Ok((a, j)) => {
            if j < ts.len() && can_start_e(&ts[j].kind) {
                match p_expr(ts, j, 1) {
                    Result::Ok((rst, j2)) => Result::Ok(
                        (
                            Expr::Pragma(Pragma { assign: a, rest: Option::Some(Box::new(rst)) }),
                            j2,
                        ),
                    ),
                    Result::Err(e) => Result::Err(e),
                }
            } else {
                Result::Ok((Expr::Pragma(Pragma { assign: a, rest: Option::None }), j))
            }
        },
        Result::Err(e) => Result::Err(e),
    }
}

/// Parses a function literal after its `fn` keyword: exactly what
/// [`sp_func`] defines.
#[verifier::rlimit(100)]
fn p_func(ts: &Vec<Token>, i: usize) -> (r: Result<(Expr, usize), ParseError>)
    requires
        i <= ts@.len(),
    ensures
        match r {
            Result::Ok(p) => ({
                &&& sp_func(toks_view(ts@), i as int) == Result::Ok::<(ExprV, int), ErrV>(
                    (expr_view(p.0), p.1 as int),
                )
                &&& i < p.1 <= ts@.len()
                &&& wf_expr(p.0)
            }),
            Result::Err(e) => sp_func(toks_view(ts@), i as int) == Result::Err::<
                (ExprV, int),
                ErrV,
            >(err_view(e)),
        },
    decreases ts@.len() - i, 4int,
{
    proof {
        reveal_with_fuel(expr_view, 3);
        reveal_with_fuel(wf_expr, 3);
    }
    let argsj: (Option<Record>, usize) = if i < ts.len() && is_lparen_e(&ts[i].kind) {
        match p_record(ts, i) {
            Result::Ok((rv, j)) => (Option::Some(rv), j),
            Result::Err(e) => {
                return Result::Err(e);
            },
        }
    } else {
        (Option::None, i)
    };
    let (args, j) = argsj;
    if j < ts.len() && block_start_e(&ts[j].kind) {
        match p_block(ts, j) {
            Result::Ok((b, j2)) => Result::Ok(
                (Expr::Func(Func { args, ret: Option::None, body: b }), j2),
            ),
            Result::Err(e) => Result::Err(e),
        }
    } else {
        match p_expr(ts, j, 1) {
            Result::Ok((e1, j2)) => {
                if j2 < ts.len() && block_start_e(&ts[j2].kind) {
                    match p_block(ts, j2) {
                        Result::Ok((b, j3)) => Result::Ok(
                            (
                                Expr::Func(
                                    Func { args, ret: Option::Some(Box::new(e1)), body: b },
                                ),
                                j3,
                            ),
                        ),
                        Result::Err(e) => Result::Err(e),
                    }
                } else {
                    Result::Ok(
                        (
                            Expr::Func(
                                Func {
                                    args,
                                    ret: Option::None,
                                    body: Block::Arrow(Box::new(e1)),
                                },
                            ),
                            j2,
                        ),
                    )
                }
            },
            Result::Err(e) => Result::Err(e),
        }
    }
}

// ----------------------------------------------------------------------
// Parsing a text
// ----------------------------------------------------------------------

/// Parses one whole program.
///
/// On success the returned tree is exactly the one [`sp_parse`] assigns
/// to the text — the result is a function of the character sequence
/// alone — and it is well formed: every record in it holds at least one
/// positional expression. On failure the error list is exactly what
/// [`sp_parse`] gives, and it is never empty.
pub fn parse(code: &str) -> (r: Result<Expr, Vec<ParseError>>)
    ensures
        match r {
            Result::Ok(e) => ({
                &&& sp_parse(code@) == Result::Ok::<ExprV, Seq<ErrV>>(expr_view(e))
                &&& wf_expr(e)
            }),
            Result::Err(es) => ({
                &&& sp_parse(code@) == Result::Err::<ExprV, Seq<ErrV>>(errs_view(es@))
                &&& es@.len() >= 1
            }),
        },
{
    let ghost s = code@;
    let n = code.unicode_len();
    let mut chars: Vec<char> = Vec::new();
    let mut k: usize = 0;
    while k < n
        invariant
            s == code@,
            n == s.len(),
            k <= n,
            chars@ == s.subrange(0, k as int),
        decreases n - k,
    {
        let c = code.get_char(k);
        proof {
            assert(s.subrange(0, k + 1) =~= s.subrange(0, k as int).push(s[k as int]));
        }
        chars.push(c);
        k = k + 1;
    }
    proof {
        assert(s.subrange(0, n as int) =~= s);
    }
    match tokenize(code, &chars) {
        Result::Ok(ts) => match p_expr(&ts, 0, 1) {
            Result::Ok((e, j)) => {
                if j < ts.len() && is_eof_e(&ts[j].kind) {
                    Result::Ok(e)
                } else {
                    let pos = if j < ts.len() {
                        ts[j].pos
                    } else {
                        0
                    };
                    let pe = ParseError { position: pos, reason: ErrorReason::TrailingInput };
                    let es = vec![pe];
                    proof {
                        assert(errs_view(es@) =~= seq![err_view(pe)]);
                    }
                    Result::Err(es)
                }
            },
            Result::Err(pe) => {
                let es = vec![pe];
                proof {
                    assert(errs_view(es@) =~= seq![err_view(pe)]);
                }
                Result::Err(es)
            },
        },
        Result::Err(le) => {
            let es = vec![le];
            proof {
                assert(errs_view(es@) =~= seq![err_view(le)]);
            }
            Result::Err(es)
        },
    }
}

// ----------------------------------------------------------------------
// Laws
// ----------------------------------------------------------------------

/// Parsing is deterministic: two texts with the same characters are
/// assigned the same outcome, tree or error list. Together with the
/// contract of [`parse`], whose result always equals [`sp_parse`] of
/// its text, two calls of the parser on equal texts yield structurally
/// identical trees.
pub proof fn lemma_parse_deterministic(s1: Seq<char>, s2: Seq<char>)
    requires
        s1 == s2,
    ensures
        sp_parse(s1) == sp_parse(s2),
{
}

} // verus!
