//! The undo history — a linear stack of applied edits, each with the
//! reverse edit that undoes it.

use vstd::prelude::*;
use crate::edit::{Edit, EditKind};

verus! {

impl EditKind {
    /// An exact copy.
    pub fn duplicate(&self) -> (r: Self)
        ensures
            r == *self,
    {
        match self {
            EditKind::Insert { text } => EditKind::Insert { text: text.clone() },
            EditKind::Delete => EditKind::Delete,
            EditKind::Replace { text } => EditKind::Replace { text: text.clone() },
        }
    }
}

impl Edit {
    /// An exact copy.
    pub fn duplicate(&self) -> (r: Self)
        ensures
            r == *self,
    {
        Edit { range: self.range, kind: self.kind.duplicate() }
    }
}

/// One atomic edit plus the reverse edit that undoes it.
#[derive(Debug, Clone, PartialEq, Eq)]
pub struct UndoEntry {
    pub applied: Edit,
    pub reverse: Edit,
}

impl UndoEntry {
    /// An exact copy.
    pub fn duplicate(&self) -> (r: Self)
        ensures
            r == *self,
    {
        UndoEntry { applied: self.applied.duplicate(), reverse: self.reverse.duplicate() }
    }
}

/// Linear undo/redo stacks.
#[derive(Debug, Default, Clone)]
pub struct UndoTree {
    undo_stack: Vec<UndoEntry>,
    redo_stack: Vec<UndoEntry>,
}

impl UndoTree {
    /// Entries that can be undone, oldest first.
    pub closed spec fn spec_undo(&self) -> Seq<UndoEntry> {
        self.undo_stack@
    }

    /// Entries that can be redone, oldest undo first.
    pub closed spec fn spec_redo(&self) -> Seq<UndoEntry> {
        self.redo_stack@
    }

    pub fn new() -> (t: Self)
        ensures
            t.spec_undo() == Seq::<UndoEntry>::empty(),
            t.spec_redo() == Seq::<UndoEntry>::empty(),
    {
        UndoTree { undo_stack: Vec::new(), redo_stack: Vec::new() }
    }

    /// Record a new edit. Any redo history is abandoned.
    pub fn push(&mut self, entry: UndoEntry)
        ensures
            final(self).spec_undo() == old(self).spec_undo().push(entry),
            final(self).spec_redo() == Seq::<UndoEntry>::empty(),
    {
        self.undo_stack.push(entry);
        self.redo_stack.clear();
    }

    pub fn can_undo(&self) -> (b: bool)
        ensures
            b == (self.spec_undo().len() > 0),
    {
        self.undo_stack.len() > 0
    }

    pub fn can_redo(&self) -> (b: bool)
        ensures
            b == (self.spec_redo().len() > 0),
    {
        self.redo_stack.len() > 0
    }

    /// Take the newest undoable entry, moving it onto the redo stack.
    pub fn pop_undo(&mut self) -> (r: Option<UndoEntry>)
        ensures
            old(self).spec_undo().len() == 0 ==> r is None,
            old(self).spec_undo().len() == 0 ==> final(self).spec_undo() == old(self).spec_undo(),
            old(self).spec_undo().len() == 0 ==> final(self).spec_redo() == old(self).spec_redo(),
            old(self).spec_undo().len() > 0 ==> r == Some(old(self).spec_undo().last()),
            old(self).spec_undo().len() > 0 ==> final(self).spec_undo() == old(self).spec_undo().drop_last(),
            old(self).spec_undo().len() > 0 ==> final(self).spec_redo() == old(self).spec_redo().push(old(self).spec_undo().last()),
    {
        match self.undo_stack.pop() {
            None => None,
            Some(e) => {
                self.redo_stack.push(e.duplicate());
                Some(e)
            },
        }
    }

    /// Take the newest redoable entry, moving it back onto the undo stack.
    pub fn pop_redo(&mut self) -> (r: Option<UndoEntry>)
        ensures
            old(self).spec_redo().len() == 0 ==> r is None,
            old(self).spec_redo().len() == 0 ==> final(self).spec_undo() == old(self).spec_undo(),
            old(self).spec_redo().len() == 0 ==> final(self).spec_redo() == old(self).spec_redo(),
            old(self).spec_redo().len() > 0 ==> r == Some(old(self).spec_redo().last()),
            old(self).spec_redo().len() > 0 ==> final(self).spec_redo() == old(self).spec_redo().drop_last(),
            old(self).spec_redo().len() > 0 ==> final(self).spec_undo() == old(self).spec_undo().push(old(self).spec_redo().last()),
    {
        match self.redo_stack.pop() {
            None => None,
            Some(e) => {
                self.undo_stack.push(e.duplicate());
                Some(e)
            },
        }
    }

    pub fn undo_len(&self) -> (n: usize)
        ensures
            n == self.spec_undo().len(),
    {
        self.undo_stack.len()
    }

    pub fn redo_len(&self) -> (n: usize)
        ensures
            n == self.spec_redo().len(),
    {
        self.redo_stack.len()
    }
}

/// Undoing right after a push hands back the entry just pushed, and redoing
/// that undo restores both stacks exactly: push, undo, redo leaves the undo
/// history as the push made it.
pub proof fn lemma_undo_redo_round_trip(u: Seq<UndoEntry>, e: UndoEntry)
    ensures
        u.push(e).last() == e,
        u.push(e).drop_last() == u,
        u.push(e).drop_last().push(e) == u.push(e),
        Seq::<UndoEntry>::empty().push(e).drop_last() == Seq::<UndoEntry>::empty(),
{
    assert(u.push(e).drop_last() =~= u);
    assert(Seq::<UndoEntry>::empty().push(e).drop_last() =~= Seq::<UndoEntry>::empty());
}

} // verus!
