//! `defmark`: a named place in a file.

use vstd::prelude::*;
use crate::text::{contains_str, views, ascii_alnum, is_ascii_alnum, chars_of};

verus! {

/// One `(defmark …)` form.
#[derive(Debug, Clone, PartialEq, Eq, Default)]
pub struct MarkSpec {
    pub name: String,
    pub file: String,
    pub line: u32,
    pub column: u32,
    pub kind: String,
    pub description: String,
}

/// The mark kinds.
pub const KNOWN_KINDS: [&'static str; 3] = ["jump", "anchor", "glance"];

/// Is `name` empty (the default kind) or one of [`KNOWN_KINDS`]?
pub fn is_known_kind(name: &str) -> (b: bool)
    ensures
        b == (name@.len() == 0 || views(KNOWN_KINDS@).contains(name@)),
{
    name.is_empty() || contains_str(&KNOWN_KINDS, name)
}

impl MarkSpec {
    /// The name is a vim mark: `'` then exactly one ASCII letter or digit.
    pub fn is_vim_single_letter(&self) -> (b: bool)
        ensures
            b == (self.name@.len() == 2 && self.name@[0] == '\'' && is_ascii_alnum(self.name@[1])),
    {
        let v = chars_of(self.name.as_str());
        v.len() == 2 && v[0] == '\'' && ascii_alnum(v[1])
    }

    /// The kind in force: `jump` when none is given.
    pub fn effective_kind(&self) -> (s: &str)
        ensures
            s@ == (if self.kind@.len() == 0 {
                "jump"@
            } else {
                self.kind@
            }),
    {
        if self.kind.as_str().is_empty() {
            "jump"
        } else {
            self.kind.as_str()
        }
    }
}

} // verus!
