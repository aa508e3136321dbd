//! `defcmd`: a command-palette entry bound to a dotted action symbol.

use vstd::prelude::*;

verus! {

/// One `(defcmd …)` form.
#[derive(Debug, Clone, PartialEq, Eq, Default)]
pub struct CmdSpec {
    /// The name the user types into the command palette.
    pub name: String,
    /// One-line description shown next to the name.
    pub description: String,
    /// Dotted action symbol resolved against the command dispatcher.
    pub action: String,
}

} // verus!
