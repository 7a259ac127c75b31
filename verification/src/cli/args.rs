//! The command line as the library sees it, once parsed.
use vstd::prelude::*;

verus! {

/// The parsed command line: output flags, an optional subcommand, the model,
/// and the inspection options.
#[derive(Debug)]
pub struct Cli {
    pub json: bool,
    pub tui: bool,
    pub command: Option<Commands>,
    pub model: Option<String>,
    pub checkpoint: Option<String>,
    pub params: bool,
    pub graph: bool,
    pub attention_breakdown: bool,
    pub deep: bool,
}

/// Subcommands.
#[derive(Debug)]
pub enum Commands {
    /// Compare two models side by side.
    Compare { model1: String, model2: String, deep: bool },
}

} // verus!
