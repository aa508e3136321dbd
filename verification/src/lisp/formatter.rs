//! `defformatter`: the external formatter for a filetype.

use vstd::prelude::*;

verus! {

/// One `(defformatter …)` form.
#[derive(Debug, Clone, PartialEq, Eq, Default)]
pub struct FormatterSpec {
    pub filetype: String,
    pub command: String,
    pub args: Vec<String>,
    pub manual_only: bool,
    pub timeout_ms: u64,
}

} // verus!
