//! The dirty region of the document to refresh after a change.
//!
//! `Damage` forms a join-semilattice ordered
//! `Nothing ⊑ Lines ⊑ Viewport ⊑ Full`: combining two damages yields one that
//! covers both, and no operation narrows it.

use vstd::prelude::*;

verus! {

/// How the line count changed under one edit. `start` is the first line
/// the edit touched.
#[derive(Clone, Copy, PartialEq, Eq, Structural, Debug, Default)]
pub struct LineDelta {
    pub start: u32,
    pub old_lines: u32,
    pub new_lines: u32,
}

impl LineDelta {
    /// Did the edit change the number of lines (so every line below
    /// `start` shifted)?
    pub fn shifted_below(self) -> (b: bool)
        ensures
            b == (self.old_lines != self.new_lines),
    {
        self.old_lines != self.new_lines
    }
}

/// The dirty region to refresh. Line ranges are inclusive `[from, to]`;
/// `to == u32::MAX` means "to the end of the document".
#[derive(Clone, Copy, PartialEq, Eq, Structural, Debug, Default)]
pub enum Damage {
    /// Nothing changed.
    #[default]
    Nothing,
    /// The inclusive line range `[from, to]` changed.
    Lines { from: u32, to: u32 },
    /// The whole visible region must repaint; content is unchanged.
    Viewport,
    /// Everything must be recomputed.
    Full,
}

/// The lattice join of two damages.
pub open spec fn spec_join(a: Damage, b: Damage) -> Damage {
    match (a, b) {
        (Damage::Full, _) => Damage::Full,
        (_, Damage::Full) => Damage::Full,
        (Damage::Viewport, _) => Damage::Viewport,
        (_, Damage::Viewport) => Damage::Viewport,
        (Damage::Nothing, x) => x,
        (x, Damage::Nothing) => x,
        (Damage::Lines { from: f0, to: t0 }, Damage::Lines { from: f1, to: t1 }) => Damage::Lines {
            from: if f0 <= f1 { f0 } else { f1 },
            to: if t0 >= t1 { t0 } else { t1 },
        },
    }
}

/// `big` covers everything `small` asks to repaint.
pub open spec fn covers(big: Damage, small: Damage) -> bool {
    match (big, small) {
        (_, Damage::Nothing) => true,
        (Damage::Full, _) => true,
        (Damage::Viewport, Damage::Lines { .. }) => true,
        (Damage::Viewport, Damage::Viewport) => true,
        (Damage::Lines { from: f0, to: t0 }, Damage::Lines { from: f1, to: t1 }) => f0 <= f1
            && t1 <= t0,
        _ => false,
    }
}

impl Damage {
    /// A single changed line.
    pub fn line(n: u32) -> (d: Damage)
        ensures
            d == (Damage::Lines { from: n, to: n }),
    {
        Damage::Lines { from: n, to: n }
    }

    /// An inclusive changed span, with its ends put in order.
    pub fn span(a: u32, b: u32) -> (d: Damage)
        ensures
            d == (Damage::Lines { from: if a <= b { a } else { b }, to: if a <= b { b } else { a } }),
    {
        if a <= b {
            Damage::Lines { from: a, to: b }
        } else {
            Damage::Lines { from: b, to: a }
        }
    }

    /// The span a line delta implies: the edited line when the line count
    /// held, otherwise everything from it to the end of the document.
    pub fn from_delta(d: LineDelta) -> (r: Damage)
        ensures
            r == (if d.old_lines != d.new_lines {
                Damage::Lines { from: d.start, to: u32::MAX }
            } else {
                Damage::Lines { from: d.start, to: d.start }
            }),
    {
        if d.shifted_below() {
            Damage::Lines { from: d.start, to: u32::MAX }
        } else {
            Damage::line(d.start)
        }
    }

    /// The smallest damage covering both `self` and `other`.
    pub fn join(self, other: Damage) -> (r: Damage)
        ensures
            r == spec_join(self, other),
    {
        match (self, other) {
            (Damage::Full, _) | (_, Damage::Full) => Damage::Full,
            (Damage::Viewport, _) | (_, Damage::Viewport) => Damage::Viewport,
            (Damage::Nothing, x) => x,
            (x, Damage::Nothing) => x,
            (Damage::Lines { from: f0, to: t0 }, Damage::Lines { from: f1, to: t1 }) => {
                Damage::Lines {
                    from: if f0 <= f1 { f0 } else { f1 },
                    to: if t0 >= t1 { t0 } else { t1 },
                }
            },
        }
    }

    /// Is there nothing to repaint?
    pub fn is_none(self) -> (b: bool)
        ensures
            b == (self is Nothing),
    {
        matches!(self, Damage::Nothing)
    }
}

/// The join only widens: it covers both of its arguments.
pub proof fn lemma_join_widens(a: Damage, b: Damage)
    ensures
        covers(spec_join(a, b), a),
        covers(spec_join(a, b), b),
{
}

/// The join is the least upper bound: anything covering both arguments
/// covers their join.
pub proof fn lemma_join_least(a: Damage, b: Damage, c: Damage)
    requires
        covers(c, a),
        covers(c, b),
    ensures
        covers(c, spec_join(a, b)),
{
}

/// The join is commutative, associative and idempotent, with `None` as
/// unit and `Full` as top.
pub proof fn lemma_join_semilattice(a: Damage, b: Damage, c: Damage)
    ensures
        spec_join(a, b) == spec_join(b, a),
        spec_join(spec_join(a, b), c) == spec_join(a, spec_join(b, c)),
        spec_join(a, a) == a,
        spec_join(Damage::Nothing, a) == a,
        spec_join(Damage::Full, a) == Damage::Full,
{
}

} // verus!
