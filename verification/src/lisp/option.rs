//! `defoption`: an editor option with a string-encoded value.

use vstd::prelude::*;

verus! {

/// One `(defoption …)` form.
#[derive(Debug, Clone, PartialEq, Eq, Default)]
pub struct OptionSpec {
    /// The option name (`"number"`, `"tabstop"`, …).
    pub name: String,
    /// The string-encoded value (`"true"`, `"4"`, …).
    pub value: String,
}

} // verus!
