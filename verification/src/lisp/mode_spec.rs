//! `defmode`: a major mode — extensions, grammar, comment syntax, indent.

use vstd::prelude::*;

verus! {

/// One `(defmode …)` form.
#[derive(Debug, Clone, PartialEq, Eq, Default)]
pub struct MajorModeSpec {
    pub name: String,
    pub extensions: Vec<String>,
    pub tree_sitter: String,
    pub commentstring: String,
    pub indent: u32,
    pub structural_lisp: bool,
}

} // verus!
