//! The command surface of the tool: one of the two subcommands with its
//! options. Argument parsing itself happens outside the library.

use vstd::prelude::*;

verus! {

/// The tool's subcommands.
#[derive(Debug, Clone)]
pub enum Command {
    /// Generate code from a css input.
    Generate(crate::generate::Options),
    /// Validate code against a css input.
    Validate(crate::validate::Options),
}

/// What the tool was invoked to do.
#[derive(Debug, Clone)]
pub struct Options {
    pub command: Command,
}

} // verus!
