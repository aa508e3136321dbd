//! The jumplist — where you were before the editor moved you a long way.
//!
//! A jump records the position jumped **from**. `<C-o>` walks back, `<C-i>`
//! walks forward again; the first `<C-o>` also records where you are now so
//! `<C-i>` can return to it. A new jump while partway back drops the
//! forward entries, and consecutive jumps from one line collapse.

use vstd::prelude::*;
use crate::id::BufferId;
use crate::position::Position;

verus! {

/// How many jumps to keep.
pub const JUMPLIST_LIMIT: usize = 100;

/// A located position — where, in which buffer.
#[derive(Debug, Clone, Copy, PartialEq, Eq, Structural)]
pub struct Spot {
    pub buffer: BufferId,
    pub pos: Position,
}

/// Same buffer and same line — the collapse rule.
pub open spec fn spec_same_line(a: Spot, b: Spot) -> bool {
    a.buffer == b.buffer && a.pos.line == b.pos.line
}

impl Spot {
    pub fn new(buffer: BufferId, pos: Position) -> (s: Self)
        ensures
            s.buffer == buffer,
            s.pos == pos,
    {
        Self { buffer, pos }
    }

    /// Same buffer and same line.
    pub fn same_line(&self, other: &Self) -> (b: bool)
        ensures
            b == spec_same_line(*self, *other),
    {
        self.buffer.0 == other.buffer.0 && self.pos.line == other.pos.line
    }
}

/// `es` with its oldest entries dropped so that at most the limit remain.
pub open spec fn spec_trimmed(es: Seq<Spot>) -> Seq<Spot> {
    if es.len() > JUMPLIST_LIMIT {
        es.subrange(es.len() - JUMPLIST_LIMIT, es.len() as int)
    } else {
        es
    }
}

/// The entries after recording a jump from `from` with the walk at `cur`:
/// the forward history is dropped, a newest entry on the same line is
/// replaced, and the list is trimmed to the limit.
pub open spec fn spec_push_entries(es: Seq<Spot>, cur: nat, from: Spot) -> Seq<Spot> {
    let kept = es.subrange(0, cur as int);
    let collapsed = if kept.len() > 0 && spec_same_line(kept.last(), from) {
        kept.drop_last()
    } else {
        kept
    };
    spec_trimmed(collapsed.push(from))
}

/// The entries once `<C-o>` has parked `current` at the newest end (only
/// when stepping in from the end, and not when the newest entry is already
/// on that line).
pub open spec fn spec_back_entries(es: Seq<Spot>, cur: nat, current: Spot) -> Seq<Spot> {
    if es.len() == 0 || cur != es.len() || spec_same_line(es.last(), current) {
        es
    } else {
        spec_trimmed(es.push(current))
    }
}

/// Where the walk cursor stands after parking, before stepping back.
pub open spec fn spec_back_start(es: Seq<Spot>, cur: nat, current: Spot) -> nat {
    if es.len() > 0 && cur == es.len() {
        (spec_back_entries(es, cur, current).len() - 1) as nat
    } else {
        cur
    }
}

/// No two neighbouring entries of `es` lie on one line.
pub open spec fn apart(es: Seq<Spot>) -> bool {
    forall|i: int| 0 <= i < es.len() - 1 ==> !spec_same_line(#[trigger] es[i], es[i + 1])
}

/// Trimming keeps neighbours apart.
proof fn lemma_trimmed_apart(es: Seq<Spot>)
    requires
        apart(es),
    ensures
        apart(spec_trimmed(es)),
{
    let t = spec_trimmed(es);
    if es.len() > JUMPLIST_LIMIT {
        let d = es.len() - JUMPLIST_LIMIT;
        assert forall|i: int| 0 <= i < t.len() - 1 implies !spec_same_line(#[trigger] t[i], t[i + 1]) by {
            assert(t[i] == es[i + d] && t[i + 1] == es[i + d + 1]);
        }
    }
}

/// Recording a jump keeps neighbours apart.
pub proof fn lemma_push_keeps_apart(es: Seq<Spot>, cur: nat, from: Spot)
    requires
        apart(es),
        cur <= es.len(),
    ensures
        apart(spec_push_entries(es, cur, from)),
{
    let kept = es.subrange(0, cur as int);
    assert(apart(kept)) by {
        assert forall|i: int| 0 <= i < kept.len() - 1 implies !spec_same_line(#[trigger] kept[i], kept[i + 1]) by {
            assert(kept[i] == es[i] && kept[i + 1] == es[i + 1]);
        }
    }
    let collapsed = if kept.len() > 0 && spec_same_line(kept.last(), from) {
        kept.drop_last()
    } else {
        kept
    };
    let p = collapsed.push(from);
    assert forall|i: int| 0 <= i < p.len() - 1 implies !spec_same_line(#[trigger] p[i], p[i + 1]) by {
        if i + 1 < collapsed.len() {
            assert(p[i] == kept[i] && p[i + 1] == kept[i + 1]);
        } else {
            assert(p[i + 1] == from);
            assert(p[i] == kept[i]);
            if kept.len() > 0 && spec_same_line(kept.last(), from) {
                assert(kept[i + 1] == kept.last());
                assert(!spec_same_line(kept[i], kept[i + 1]));
            }
        }
    }
    lemma_trimmed_apart(p);
}

/// Parking the current spot keeps neighbours apart.
pub proof fn lemma_back_keeps_apart(es: Seq<Spot>, cur: nat, current: Spot)
    requires
        apart(es),
    ensures
        apart(spec_back_entries(es, cur, current)),
{
    if !(es.len() == 0 || cur != es.len() || spec_same_line(es.last(), current)) {
        let p = es.push(current);
        assert forall|i: int| 0 <= i < p.len() - 1 implies !spec_same_line(#[trigger] p[i], p[i + 1]) by {
            if i + 1 < es.len() {
                assert(p[i] == es[i] && p[i + 1] == es[i + 1]);
            } else {
                assert(p[i] == es.last());
            }
        }
        lemma_trimmed_apart(p);
    }
}

/// A ring of jump origins with a walk cursor.
#[derive(Debug, Clone, Default, PartialEq, Eq)]
pub struct JumpList {
    entries: Vec<Spot>,
    cursor: usize,
}

impl JumpList {
    /// The recorded jumps, oldest first.
    pub closed spec fn spec_entries(&self) -> Seq<Spot> {
        self.entries@
    }

    /// Where the walk stands; the entry count means "not walking".
    pub closed spec fn spec_cursor(&self) -> nat {
        self.cursor as nat
    }

    /// The list is bounded, the cursor lies within it, and no two
    /// neighbouring entries lie on one line.
    pub open spec fn wf(&self) -> bool {
        &&& self.spec_entries().len() <= JUMPLIST_LIMIT
        &&& self.spec_cursor() <= self.spec_entries().len()
        &&& apart(self.spec_entries())
    }

    pub fn new() -> (j: Self)
        ensures
            j.wf(),
            j.spec_entries() == Seq::<Spot>::empty(),
            j.spec_cursor() == 0,
    {
        Self { entries: Vec::new(), cursor: 0 }
    }

    /// Drop the oldest entries past the limit, keeping the cursor on the
    /// same logical entry.
    fn trim(&mut self)
        requires
            old(self).cursor <= old(self).entries@.len(),
        ensures
            final(self).entries@ == spec_trimmed(old(self).entries@),
            final(self).cursor <= final(self).entries@.len(),
    {
        let ghost orig = self.entries@;
        while self.entries.len() > JUMPLIST_LIMIT
            invariant
                self.cursor <= self.entries@.len(),
                self.entries@.len() <= orig.len(),
                self.entries@ == orig.subrange(orig.len() - self.entries@.len(), orig.len() as int),
                orig.len() > JUMPLIST_LIMIT ==> self.entries@.len() >= JUMPLIST_LIMIT,
                orig.len() <= JUMPLIST_LIMIT ==> self.entries@ == orig,
            decreases self.entries@.len(),
        {
            self.entries.remove(0);
            self.cursor = if self.cursor > 0 { self.cursor - 1 } else { 0 };
            assert(self.entries@ =~= orig.subrange(
                orig.len() - self.entries@.len(),
                orig.len() as int,
            ));
        }
        assert(orig.len() <= JUMPLIST_LIMIT ==> orig.subrange(0, orig.len() as int) =~= orig);
    }

    /// Record a jump taken **from** `from`. Call it just before a far jump
    /// moves the cursor.
    pub fn push(&mut self, from: Spot)
        requires
            old(self).wf(),
        ensures
            final(self).wf(),
            final(self).spec_entries() == spec_push_entries(
                old(self).spec_entries(),
                old(self).spec_cursor(),
                from,
            ),
            final(self).spec_cursor() == final(self).spec_entries().len(),
    {
        let ghost es = self.entries@;
        proof {
            lemma_push_keeps_apart(es, self.cursor as nat, from);
        }
        self.entries.truncate(self.cursor);
        assert(self.entries@ =~= es.subrange(0, self.cursor as int));
        let n = self.entries.len();
        if n > 0 && self.entries[n - 1].same_line(&from) {
            self.entries.pop();
        }
        self.entries.push(from);
        self.cursor = 0;
        self.trim();
        self.cursor = self.entries.len();
    }

    /// `<C-o>` — walk back one jump. `current` is where the cursor is now.
    /// `None` when there is nothing older.
    pub fn back(&mut self, current: Spot) -> (r: Option<Spot>)
        requires
            old(self).wf(),
        ensures
            final(self).wf(),
            final(self).spec_entries() == spec_back_entries(
                old(self).spec_entries(),
                old(self).spec_cursor(),
                current,
            ),
            ({
                let start = spec_back_start(
                    old(self).spec_entries(),
                    old(self).spec_cursor(),
                    current,
                );
                if old(self).spec_entries().len() == 0 {
                    r is None && final(self).spec_cursor() == old(self).spec_cursor()
                } else if start == 0 {
                    r is None && final(self).spec_cursor() == 0
                } else {
                    final(self).spec_cursor() == start - 1 && r == Some(
                        final(self).spec_entries()[start - 1int],
                    )
                }
            }),
    {
        if self.entries.len() == 0 {
            return None;
        }
        proof {
            lemma_back_keeps_apart(self.entries@, self.cursor as nat, current);
        }
        if self.cursor == self.entries.len() {
            let n = self.entries.len();
            if self.entries[n - 1].same_line(&current) {
            } else {
                self.entries.push(current);
                self.trim();
            }
            self.cursor = self.entries.len() - 1;
        }
        if self.cursor == 0 {
            return None;
        }
        self.cursor = self.cursor - 1;
        Some(self.entries[self.cursor])
    }

    /// `<C-i>` — walk forward again. `None` at the newest end.
    pub fn forward(&mut self) -> (r: Option<Spot>)
        requires
            old(self).wf(),
        ensures
            final(self).wf(),
            final(self).spec_entries() == old(self).spec_entries(),
            if old(self).spec_cursor() + 1 >= old(self).spec_entries().len() {
                r is None && final(self).spec_cursor() == old(self).spec_cursor()
            } else {
                final(self).spec_cursor() == old(self).spec_cursor() + 1 && r == Some(
                    old(self).spec_entries()[old(self).spec_cursor() + 1int],
                )
            },
    {
        if self.cursor + 1 >= self.entries.len() {
            return None;
        }
        self.cursor = self.cursor + 1;
        Some(self.entries[self.cursor])
    }

    /// The recorded jumps, oldest first.
    pub fn entries(&self) -> (s: &[Spot])
        ensures
            s@ == self.spec_entries(),
    {
        self.entries.as_slice()
    }

    pub fn len(&self) -> (n: usize)
        ensures
            n == self.spec_entries().len(),
    {
        self.entries.len()
    }

    pub fn is_empty(&self) -> (b: bool)
        ensures
            b == (self.spec_entries().len() == 0),
    {
        self.entries.len() == 0
    }
}

/// After recording a jump from `from`, the newest entry is `from`, the
/// walk stands at the newest end, and the list stays bounded.
pub proof fn lemma_push_records_origin(es: Seq<Spot>, cur: nat, from: Spot)
    requires
        es.len() <= JUMPLIST_LIMIT,
        cur <= es.len(),
    ensures
        spec_push_entries(es, cur, from).len() > 0,
        spec_push_entries(es, cur, from).len() <= JUMPLIST_LIMIT,
        spec_push_entries(es, cur, from).last() == from,
{
}

/// `<C-o>` returns to the origin of the jump just recorded, whenever the
/// cursor has since left that line.
pub proof fn lemma_back_returns_to_origin(es: Seq<Spot>, cur: nat, from: Spot, current: Spot)
    requires
        es.len() <= JUMPLIST_LIMIT,
        cur <= es.len(),
        !spec_same_line(from, current),
    ensures
        ({
            let es1 = spec_push_entries(es, cur, from);
            let start = spec_back_start(es1, es1.len(), current);
            let es2 = spec_back_entries(es1, es1.len(), current);
            start > 0 && es2[start - 1] == from
        }),
{
    lemma_push_records_origin(es, cur, from);
    let es1 = spec_push_entries(es, cur, from);
    let p = es1.push(current);
    assert(p[p.len() - 2] == from);
}

/// `<C-i>` after that `<C-o>` comes back to where `<C-o>` was pressed:
/// the back door is also a way forward.
pub proof fn lemma_forward_undoes_back(es: Seq<Spot>, cur: nat, from: Spot, current: Spot)
    requires
        es.len() <= JUMPLIST_LIMIT,
        cur <= es.len(),
        !spec_same_line(from, current),
    ensures
        ({
            let es1 = spec_push_entries(es, cur, from);
            let start = spec_back_start(es1, es1.len(), current);
            let es2 = spec_back_entries(es1, es1.len(), current);
            // the cursor sits at start - 1 after `<C-o>`; one step forward
            start < es2.len() && es2[start as int] == current
        }),
{
    lemma_push_records_origin(es, cur, from);
}

/// Jumping again from the line of the newest jump replaces it rather than
/// growing the list.
pub proof fn lemma_same_line_collapses(es: Seq<Spot>, from: Spot)
    requires
        0 < es.len() <= JUMPLIST_LIMIT,
        spec_same_line(es.last(), from),
    ensures
        spec_push_entries(es, es.len(), from).len() == es.len(),
        spec_push_entries(es, es.len(), from) == es.drop_last().push(from),
{
    assert(es.subrange(0, es.len() as int) =~= es);
}

/// Jumping from a new line while at the newest end keeps every earlier
/// entry, dropping only the oldest once the limit is reached.
pub proof fn lemma_distinct_lines_survive(es: Seq<Spot>, from: Spot)
    requires
        es.len() <= JUMPLIST_LIMIT,
        es.len() == 0 || !spec_same_line(es.last(), from),
    ensures
        spec_push_entries(es, es.len(), from) == spec_trimmed(es.push(from)),
{
    assert(es.subrange(0, es.len() as int) =~= es);
}

/// Recording a jump and then walking: the newest entry is the origin, the
/// list stays bounded with no two neighbours on one line, the older
/// entries are one unbroken run of the entries before (cut at the walk
/// cursor), and `<C-o>` from any other line comes back to the origin.
pub proof fn lemma_push_then_walk(es: Seq<Spot>, cur: nat, from: Spot, current: Spot)
    requires
        es.len() <= JUMPLIST_LIMIT,
        cur <= es.len(),
        apart(es),
        !spec_same_line(from, current),
    ensures
        ({
            let es1 = spec_push_entries(es, cur, from);
            &&& es1.len() > 0
            &&& es1.last() == from
            &&& es1.len() <= JUMPLIST_LIMIT
            &&& apart(es1)
            &&& exists|lo: int, hi: int| 0 <= lo <= hi <= cur && es1.drop_last() == es.subrange(lo, hi)
        }),
        ({
            let es1 = spec_push_entries(es, cur, from);
            let start = spec_back_start(es1, es1.len(), current);
            let es2 = spec_back_entries(es1, es1.len(), current);
            start > 0 && es2[start - 1] == from
        }),
{
    lemma_push_records_origin(es, cur, from);
    lemma_push_keeps_apart(es, cur, from);
    lemma_back_returns_to_origin(es, cur, from, current);
    let kept = es.subrange(0, cur as int);
    let hi: int = if kept.len() > 0 && spec_same_line(kept.last(), from) {
        cur - 1
    } else {
        cur as int
    };
    let collapsed = es.subrange(0, hi);
    let p = collapsed.push(from);
    let es1 = spec_push_entries(es, cur, from);
    if p.len() > JUMPLIST_LIMIT {
        let lo = p.len() - JUMPLIST_LIMIT;
        assert(es1.drop_last() =~= es.subrange(lo, hi));
    } else {
        assert(es1.drop_last() =~= es.subrange(0, hi));
    }
}

} // verus!
