//! Half-open `[start, end)` text ranges.

use vstd::prelude::*;
use crate::position::{Position, pos_le, pos_lt, pos_min, pos_max};

verus! {

/// Half-open `[start, end)` text range.
#[derive(Debug, Clone, Copy, PartialEq, Eq, Structural, Hash, Default)]
pub struct Range {
    pub start: Position,
    pub end: Position,
}

/// `r` with its ends ordered so that `start` comes no later than `end`.
pub open spec fn spec_normalized(r: Range) -> Range {
    if pos_le(r.start, r.end) {
        r
    } else {
        Range { start: r.end, end: r.start }
    }
}

/// The smallest ordered range covering both `a` and `b`.
pub open spec fn spec_union(a: Range, b: Range) -> Range {
    let x = spec_normalized(a);
    let y = spec_normalized(b);
    Range { start: pos_min(x.start, y.start), end: pos_max(x.end, y.end) }
}

/// `p` lies in the half-open `[r.start, r.end)`.
pub open spec fn spec_contains(r: Range, p: Position) -> bool {
    pos_le(r.start, p) && pos_lt(p, r.end)
}

impl Range {
    /// The empty range at the origin.
    pub fn empty() -> (r: Self)
        ensures
            r.start == Position::zero_spec(),
            r.end == Position::zero_spec(),
    {
        Self { start: Position::zero(), end: Position::zero() }
    }

    pub fn new(start: Position, end: Position) -> (r: Self)
        ensures
            r.start == start,
            r.end == end,
    {
        Self { start, end }
    }

    pub open spec fn point_spec(p: Position) -> Range {
        Range { start: p, end: p }
    }

    /// The empty range at `p`.
    pub fn point(p: Position) -> (r: Self)
        ensures
            r.start == p,
            r.end == p,
    {
        Self { start: p, end: p }
    }

    pub fn is_empty(self) -> (b: bool)
        ensures
            b == (self.start == self.end),
    {
        self.start.same(self.end)
    }

    /// Does the half-open range hold `p`? The end itself is excluded.
    pub fn contains(self, p: Position) -> (b: bool)
        ensures
            b == spec_contains(self, p),
    {
        self.start.le(p) && p.lt(self.end)
    }

    /// The same range with `start` no later than `end`; a range built
    /// "backwards" has its ends swapped.
    pub fn normalized(self) -> (r: Self)
        ensures
            r == spec_normalized(self),
    {
        if self.start.le(self.end) {
            self
        } else {
            Self { start: self.end, end: self.start }
        }
    }

    /// The smallest range covering both.
    pub fn union(self, other: Self) -> (r: Self)
        ensures
            r == spec_union(self, other),
    {
        let a = self.normalized();
        let b = other.normalized();
        let start = if a.start.le(b.start) { a.start } else { b.start };
        let end = if a.end.le(b.end) { b.end } else { a.end };
        Self { start, end }
    }
}

/// Normalizing always orders the ends, keeps the same pair of ends, and
/// normalizing twice changes nothing.
pub proof fn lemma_normalized_ordered(r: Range)
    ensures
        pos_le(spec_normalized(r).start, spec_normalized(r).end),
        spec_normalized(spec_normalized(r)) == spec_normalized(r),
        (spec_normalized(r).start == r.start && spec_normalized(r).end == r.end) || (
        spec_normalized(r).start == r.end && spec_normalized(r).end == r.start),
{
}

/// The union is symmetric.
pub proof fn lemma_union_commutative(a: Range, b: Range)
    ensures
        spec_union(a, b) == spec_union(b, a),
{
}

/// The union covers every position either (ordered) range holds.
pub proof fn lemma_union_covers(a: Range, b: Range, p: Position)
    requires
        spec_contains(spec_normalized(a), p) || spec_contains(spec_normalized(b), p),
    ensures
        spec_contains(spec_union(a, b), p),
{
}

/// The union of a range with itself is the range, normalized.
pub proof fn lemma_union_idempotent(a: Range)
    ensures
        spec_union(a, a) == spec_normalized(a),
{
}

} // verus!
