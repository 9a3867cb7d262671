//! Parser for the ranni expression language.
//!
//! Source text is tokenized (whitespace and commas are insignificant
//! separators), then parsed by recursive descent with precedence climbing
//! into a single root [`ast::Expr`], or rejected with a non-empty list of
//! positioned errors.

pub mod ast;
pub mod cli;
pub mod errors;
pub mod lexer;
pub mod parser;

use vstd::prelude::*;

verus! {

/// Entry point of the `run` subcommand; it has no behavior.
pub fn run_main() {
}

} // verus!
