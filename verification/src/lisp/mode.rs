//! The editor-mode vocabulary every mode-scoped form validates against.

use vstd::prelude::*;
use crate::text::{contains_str, views};

verus! {

/// The canonical mode names, most common first.
pub const KNOWN_MODES: [&'static str; 5] = ["normal", "insert", "visual", "visual-line", "command"];

/// True when `mode` is a recognised modal-state name (case-sensitive).
pub fn is_known_mode(mode: &str) -> (b: bool)
    ensures
        b == views(KNOWN_MODES@).contains(mode@),
{
    contains_str(&KNOWN_MODES, mode)
}

} // verus!
