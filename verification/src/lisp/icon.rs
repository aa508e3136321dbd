//! `deficon`: the glyph shown for a filetype or a filename pattern.

use vstd::prelude::*;

verus! {

/// One `(deficon …)` form.
#[derive(Debug, Clone, PartialEq, Eq, Default)]
pub struct IconSpec {
    pub filetype: String,
    pub pattern: String,
    pub glyph: String,
    pub fg: String,
}

impl IconSpec {
    /// The icon matches by filename pattern rather than by filetype.
    pub fn is_pattern(&self) -> (b: bool)
        ensures
            b == (self.pattern@.len() > 0),
    {
        !self.pattern.as_str().is_empty()
    }
}

} // verus!
