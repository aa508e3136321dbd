//! Cursor state: a single cursor (anchor + head), the editor's primary
//! caret home, and a multi-cursor selection.

use vstd::prelude::*;
use crate::id::CaretId;
use crate::position::Position;
use crate::range::{Range, spec_normalized};

verus! {

/// A single cursor — anchor + head. The selection is the range between
/// them; when they coincide it is just an insertion point.
#[derive(Debug, Clone, Copy, PartialEq, Eq, Structural, Hash, Default)]
pub struct Cursor {
    pub id: CaretId,
    pub anchor: Position,
    pub head: Position,
}

impl Cursor {
    pub fn new(id: CaretId, anchor: Position, head: Position) -> (c: Self)
        ensures
            c.id == id,
            c.anchor == anchor,
            c.head == head,
    {
        Self { id, anchor, head }
    }

    /// A caret at `p`.
    pub fn at(id: CaretId, p: Position) -> (c: Self)
        ensures
            c.id == id,
            c.anchor == p,
            c.head == p,
    {
        Self { id, anchor: p, head: p }
    }

    /// The selected range, normalized so that start comes first.
    pub fn range(self) -> (r: Range)
        ensures
            r == spec_normalized(Range { start: self.anchor, end: self.head }),
    {
        Range::new(self.anchor, self.head).normalized()
    }

    /// Is this a bare insertion point?
    pub fn is_caret(self) -> (b: bool)
        ensures
            b == (self.anchor == self.head),
    {
        self.anchor.line == self.head.line && self.anchor.column == self.head.column
    }

    /// Move the head to `p`, leaving the anchor fixed — grows the selection.
    pub fn extend_to(self, p: Position) -> (c: Self)
        ensures
            c.id == self.id,
            c.anchor == self.anchor,
            c.head == p,
    {
        Self { id: self.id, anchor: self.anchor, head: p }
    }

    /// Collapse to the head — becomes a pure caret.
    pub fn collapse(self) -> (c: Self)
        ensures
            c.id == self.id,
            c.anchor == self.head,
            c.head == self.head,
    {
        Self { id: self.id, anchor: self.head, head: self.head }
    }
}

/// A caret's range is empty exactly when it is a bare caret, and
/// collapsing always yields one.
pub proof fn lemma_caret_range_empty(c: Cursor)
    ensures
        (spec_normalized(Range { start: c.anchor, end: c.head }).start == spec_normalized(
            Range { start: c.anchor, end: c.head },
        ).end) <==> (c.anchor == c.head),
{
}

/// The editor's cursor state — today exactly one primary position.
#[derive(Debug, Clone, Copy, PartialEq, Eq, Structural, Default)]
pub struct Cursors {
    primary: Position,
}

impl Cursors {
    /// The primary caret, for specifications.
    pub closed spec fn spec_primary(self) -> Position {
        self.primary
    }

    /// The state holding one cursor at `p`.
    pub closed spec fn spec_single(p: Position) -> Self {
        Cursors { primary: p }
    }

    /// One cursor at `p`.
    pub fn single(p: Position) -> (c: Self)
        ensures
            c == Self::spec_single(p),
            c.spec_primary() == p,
    {
        Self { primary: p }
    }

    /// The primary caret position.
    pub fn primary(&self) -> (p: Position)
        ensures
            p == self.spec_primary(),
    {
        self.primary
    }

    /// Move the primary caret to `p`.
    pub fn set_primary(&mut self, p: Position)
        ensures
            final(self).spec_primary() == p,
    {
        self.primary = p;
    }

    /// Transform the primary caret in place.
    pub fn map_primary<F: FnOnce(Position) -> Position>(&mut self, f: F)
        requires
            f.requires((old(self).spec_primary(),)),
        ensures
            f.ensures((old(self).spec_primary(),), final(self).spec_primary()),
    {
        self.primary = f(self.primary);
    }

    /// Number of carets — always one today.
    pub fn count(&self) -> (n: usize)
        ensures
            n == 1,
    {
        1
    }
}

impl From<Position> for Cursors {
    fn from(p: Position) -> (c: Self) {
        Self::single(p)
    }
}

impl vstd::std_specs::convert::FromSpecImpl<Position> for Cursors {
    open spec fn obeys_from_spec() -> bool {
        true
    }

    open spec fn from_spec(p: Position) -> Cursors {
        Cursors::spec_single(p)
    }
}

/// A multi-cursor selection — the primary caret plus secondaries in
/// insertion order.
#[derive(Debug, Clone, PartialEq, Eq, Default)]
pub struct Selection {
    carets: Vec<Cursor>,
    primary: usize,
}

impl Selection {
    /// Every caret, in order.
    pub closed spec fn spec_carets(&self) -> Seq<Cursor> {
        self.carets@
    }

    /// Which caret is primary.
    pub closed spec fn spec_primary_index(&self) -> nat {
        self.primary as nat
    }

    /// The primary index names a caret.
    pub open spec fn wf(&self) -> bool {
        self.spec_primary_index() < self.spec_carets().len()
    }

    /// A selection of exactly one caret, which is primary.
    pub fn single(cursor: Cursor) -> (s: Self)
        ensures
            s.wf(),
            s.spec_carets() == seq![cursor],
            s.spec_primary_index() == 0,
    {
        Self { carets: vec![cursor], primary: 0 }
    }

    pub fn carets(&self) -> (c: &[Cursor])
        ensures
            c@ == self.spec_carets(),
    {
        self.carets.as_slice()
    }

    /// The primary caret.
    pub fn primary(&self) -> (c: &Cursor)
        requires
            self.wf(),
        ensures
            *c == self.spec_carets()[self.spec_primary_index() as int],
    {
        &self.carets[self.primary]
    }

    /// Add a secondary caret at the end.
    pub fn add(&mut self, c: Cursor)
        ensures
            final(self).spec_carets() == old(self).spec_carets().push(c),
            final(self).spec_primary_index() == old(self).spec_primary_index(),
    {
        self.carets.push(c);
    }

    /// Transform the primary caret, leaving the others alone.
    pub fn map_primary<F: FnOnce(Cursor) -> Cursor>(&mut self, f: F)
        requires
            old(self).wf(),
            f.requires((old(self).spec_carets()[old(self).spec_primary_index() as int],)),
        ensures
            final(self).spec_primary_index() == old(self).spec_primary_index(),
            final(self).spec_carets().len() == old(self).spec_carets().len(),
            f.ensures(
                (old(self).spec_carets()[old(self).spec_primary_index() as int],),
                final(self).spec_carets()[old(self).spec_primary_index() as int],
            ),
            forall|i: int|
                0 <= i < old(self).spec_carets().len() && i != old(self).spec_primary_index()
                    ==> final(self).spec_carets()[i] == old(self).spec_carets()[i],
    {
        let idx = self.primary;
        let c = self.carets[idx];
        let n = f(c);
        self.carets.set(idx, n);
    }

    /// Transform every caret.
    pub fn map_all<F: FnMut(Cursor) -> Cursor>(&mut self, mut f: F)
        requires
            forall|c: Cursor| f.requires((c,)),
        ensures
            final(self).spec_primary_index() == old(self).spec_primary_index(),
            final(self).spec_carets().len() == old(self).spec_carets().len(),
            forall|i: int|
                0 <= i < old(self).spec_carets().len() ==> f.ensures(
                    (old(self).spec_carets()[i],),
                    final(self).spec_carets()[i],
                ),
    {
        let ghost before = self.carets@;
        let ghost f0 = f;
        let n = self.carets.len();
        let mut i: usize = 0;
        while i < n
            invariant
                i <= n,
                f == f0,
                n == before.len(),
                self.carets@.len() == n,
                self.primary == old(self).primary,
                before == old(self).carets@,
                forall|c: Cursor| f.requires((c,)),
                forall|j: int| 0 <= j < i ==> f.ensures((before[j],), self.carets@[j]),
                forall|j: int| i <= j < n ==> self.carets@[j] == before[j],
            decreases n - i,
        {
            let c = self.carets[i];
            let m = f(c);
            self.carets.set(i, m);
            i += 1;
        }
    }
}

} // verus!
