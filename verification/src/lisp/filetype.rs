//! `defft`: a file extension routed to a major mode.

use vstd::prelude::*;

verus! {

/// One `(defft …)` form.
#[derive(Debug, Clone, PartialEq, Eq, Default)]
pub struct FiletypeSpec {
    /// File extension, no dot (`"rs"`).
    pub ext: String,
    /// Major mode / tree-sitter language name.
    pub mode: String,
}

} // verus!
