//! `defabbrev`: an insert-mode abbreviation.

use vstd::prelude::*;

verus! {

/// One `(defabbrev …)` form.
#[derive(Debug, Clone, PartialEq, Eq, Default)]
pub struct AbbrevSpec {
    /// The literal text the user types.
    pub trigger: String,
    /// What replaces the trigger at the word boundary.
    pub expansion: String,
}

} // verus!
