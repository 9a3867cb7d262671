//! Structured parse errors.
//!
//! Every failure of the lexical layer or of a grammar rule carries the
//! character position at which it was detected and a reason that says what
//! was expected there. The front end renders these for the user.

use vstd::prelude::*;

verus! {

/// What went wrong at a given position.
#[derive(Debug, Clone, Copy, PartialEq, Eq)]
pub enum ErrorReason {
    /// No token pattern matches at this position.
    UnexpectedChar,
    /// An integer literal carries a sign, which the unsigned 64-bit
    /// integer type of the tree cannot hold.
    NegativeInt,
    /// An integer literal exceeds the unsigned 64-bit range.
    IntTooLarge,
    /// A grammar rule needed an expression here and no rule's leading
    /// token matches.
    ExpectedExpr,
    /// A binding needed a name here.
    ExpectedIdent,
    /// `struct`, or a function body position, needed a block here.
    ExpectedBlock,
    /// A record was not closed with `)`.
    ExpectedRParen,
    /// A block body was not closed with `}`.
    ExpectedRBrace,
    /// A record held no positional argument.
    EmptyRecord,
    /// Non-separator text remains after a complete top-level expression.
    TrailingInput,
}

/// One recorded failure: a character position and the reason.
#[derive(Debug, Clone, Copy, PartialEq, Eq)]
pub struct ParseError {
    pub position: usize,
    pub reason: ErrorReason,
}

/// Mathematical form of a [`ParseError`]: the position as an unbounded
/// integer.
pub struct ErrV {
    pub pos: int,
    pub reason: ErrorReason,
}

/// Abstraction of one exec-level error.
pub open spec fn err_view(e: ParseError) -> ErrV {
    ErrV { pos: e.position as int, reason: e.reason }
}

/// Abstraction of an exec-level error list.
pub open spec fn errs_view(s: Seq<ParseError>) -> Seq<ErrV> {
    Seq::new(s.len(), |k: int| err_view(s[k]))
}

} // verus!
