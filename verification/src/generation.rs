//! The monotonic edit-generation stamp: it bumps on every state mutation,
//! and a rendered product is fresh exactly when its stamp equals the
//! current one.

use vstd::prelude::*;

verus! {

/// A monotonic edit-generation counter. Equality is the freshness test.
#[derive(Clone, Copy, PartialEq, Eq, Structural, PartialOrd, Ord, Hash, Debug, Default)]
pub struct EditGen(pub u64);

impl EditGen {
    /// The next generation. Wraps at `u64::MAX` (never reached in
    /// practice, but defined).
    pub fn next(self) -> (g: Self)
        ensures
            g.0 == (if self.0 == u64::MAX { 0 } else { self.0 + 1 }),
    {
        EditGen(self.0.wrapping_add(1))
    }
}

/// Below the wrap point a bump always yields a fresh, strictly later
/// stamp, so a product stamped before the bump is stale after it.
pub proof fn lemma_next_is_fresh(g: EditGen)
    requires
        g.0 < u64::MAX,
    ensures
        ({
            let n = EditGen((g.0 + 1) as u64);
            n != g && n.0 > g.0
        }),
{
}

} // verus!
