//! The command-line surface, as plain data.
//!
//! The executable front end gathers arguments with its own tooling and
//! converts them into these types; file paths travel as plain strings.

use vstd::prelude::*;

verus! {

/// One invocation of the tool: the chosen subcommand, if any.
#[derive(Debug, PartialEq, Eq)]
pub struct Cli {
    pub command: Option<Commands>,
}

/// The subcommands of the tool.
#[derive(Debug, PartialEq, Eq)]
pub enum Commands {
    /// Serve the language-server protocol on standard input and output.
    Lsp {},
    /// Open the interactive surface on a file.
    Ui { file: String },
    /// Parse a file (or standard input, written `-`) and print the tree
    /// or the errors.
    Compile { file: String },
    /// Run a program; this has no behavior yet.
    Run {},
}

} // verus!
