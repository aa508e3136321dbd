//! A primitive text mutation — the atom of undo/redo.

use vstd::prelude::*;
use crate::position::Position;
use crate::range::Range;

verus! {

/// What a primitive edit does to its range.
#[derive(Debug, Clone, PartialEq, Eq)]
pub enum EditKind {
    /// Insert `text` at `range.start`; `range.end` is ignored.
    Insert { text: String },
    /// Delete the range.
    Delete,
    /// Replace the range with `text`.
    Replace { text: String },
}

/// A primitive text mutation — the atom of undo/redo.
#[derive(Debug, Clone, PartialEq, Eq)]
pub struct Edit {
    pub range: Range,
    pub kind: EditKind,
}

impl Edit {
    /// Insert `text` at `at`.
    pub fn insert(at: Position, text: &str) -> (e: Self)
        ensures
            e.range == Range::point_spec(at),
            e.kind matches EditKind::Insert { text: t } && t@ == text@,
    {
        Self { range: Range::point(at), kind: EditKind::Insert { text: crate::text::owned(text) } }
    }

    /// Delete `range`.
    pub fn delete(range: Range) -> (e: Self)
        ensures
            e.range == range,
            e.kind is Delete,
    {
        Self { range, kind: EditKind::Delete }
    }

    /// Replace `range` with `text`.
    pub fn replace(range: Range, text: &str) -> (e: Self)
        ensures
            e.range == range,
            e.kind matches EditKind::Replace { text: t } && t@ == text@,
    {
        Self { range, kind: EditKind::Replace { text: crate::text::owned(text) } }
    }
}

} // verus!
