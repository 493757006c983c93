//! The commands of the tool, as plain values.

use vstd::prelude::*;

verus! {

/// The parsed command line.
#[derive(Debug, PartialEq, Eq)]
pub struct Args {
    pub command: Option<Commands>,
}

/// What the tool is asked to do.
#[derive(Debug, PartialEq, Eq)]
pub enum Commands {
    /// Harvest the likes of `username`, down to `not_before_date`
    /// (`%Y-%m-%d`), from `next_token` if given.
    Export { username: String, not_before_date: Option<String>, next_token: Option<String> },
    /// Compile the cached pages of `username` into one document.
    Compile { username: String, format: OutputFormat, filename: Option<String> },
}

/// The form of a compiled document.
#[derive(Clone, Copy, Debug, PartialEq, Eq, Structural)]
pub enum OutputFormat {
    /// A structured document.
    JSON,
    /// A rendered document, one block per item.
    Markdown,
}

} // verus!
