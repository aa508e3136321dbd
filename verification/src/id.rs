//! Opaque identifiers — one counter per domain.

use vstd::prelude::*;
use crate::text::{decimal, push_str, push_decimal, owned};

verus! {

/// Identifies one open buffer — unique across the editor session.
#[derive(Debug, Clone, Copy, PartialEq, Eq, Structural, PartialOrd, Ord, Hash, Default)]
pub struct BufferId(pub u64);

/// Identifies one UI window (one viewport over a buffer).
#[derive(Debug, Clone, Copy, PartialEq, Eq, Structural, PartialOrd, Ord, Hash, Default)]
pub struct WindowId(pub u64);

/// Identifies a caret within a selection, stable across edits.
#[derive(Debug, Clone, Copy, PartialEq, Eq, Structural, PartialOrd, Ord, Hash, Default)]
pub struct CaretId(pub u64);

fn tagged(tag: &str, n: u64) -> (s: String)
    ensures
        s@ == tag@ + seq!['#'] + decimal(n as nat),
{
    let mut s = owned(tag);
    crate::text::push_char(&mut s, '#');
    push_decimal(&mut s, n);
    assert(s@ =~= tag@ + seq!['#'] + decimal(n as nat));
    s
}

impl BufferId {
    /// `BufferId#<n>`.
    pub fn label(&self) -> (s: String)
        ensures
            s@ == "BufferId"@ + seq!['#'] + decimal(self.0 as nat),
    {
        tagged("BufferId", self.0)
    }
}

impl WindowId {
    /// `WindowId#<n>`.
    pub fn label(&self) -> (s: String)
        ensures
            s@ == "WindowId"@ + seq!['#'] + decimal(self.0 as nat),
    {
        tagged("WindowId", self.0)
    }
}

impl CaretId {
    /// `CaretId#<n>`.
    pub fn label(&self) -> (s: String)
        ensures
            s@ == "CaretId"@ + seq!['#'] + decimal(self.0 as nat),
    {
        tagged("CaretId", self.0)
    }
}

} // verus!
