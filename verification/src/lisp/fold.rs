//! `deffold`: how a filetype folds.

use vstd::prelude::*;
use crate::text::{contains_str, views};

verus! {

/// One `(deffold …)` form.
#[derive(Debug, Clone, PartialEq, Eq, Default)]
pub struct FoldSpec {
    pub filetype: String,
    pub method: String,
    pub queries: Vec<String>,
    pub trigger_chars: String,
    pub default_level: u32,
    pub marker_start: String,
    pub marker_end: String,
}

/// The fold methods.
pub const KNOWN_METHODS: [&'static str; 5] = ["treesitter", "indent", "marker", "heading", "syntax"];

/// Is `method` one of [`KNOWN_METHODS`]?
pub fn is_known_method(method: &str) -> (b: bool)
    ensures
        b == views(KNOWN_METHODS@).contains(method@),
{
    contains_str(&KNOWN_METHODS, method)
}

impl FoldSpec {
    /// The method in force: `treesitter` when none is given.
    pub fn effective_method(&self) -> (s: &str)
        ensures
            s@ == (if self.method@.len() == 0 {
                "treesitter"@
            } else {
                self.method@
            }),
    {
        if self.method.as_str().is_empty() {
            "treesitter"
        } else {
            self.method.as_str()
        }
    }

    /// Both markers of a marker fold are given.
    pub fn marker_pair_complete(&self) -> (b: bool)
        ensures
            b == (self.marker_start@.len() > 0 && self.marker_end@.len() > 0),
    {
        !self.marker_start.as_str().is_empty() && !self.marker_end.as_str().is_empty()
    }

    /// The number of tree-sitter fold queries.
    pub fn query_count(&self) -> (n: usize)
        ensures
            n == self.queries@.len(),
    {
        self.queries.len()
    }
}

} // verus!
