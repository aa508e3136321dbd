//! Lexicographic order on text: the order `str`'s `Ord` uses (UTF-8 bytes
//! compare as the chars they encode do).

use vstd::prelude::*;
use crate::text::chars_of;

verus! {

/// `a` comes no later than `b`, char by char, a prefix first.
pub open spec fn seq_le(a: Seq<char>, b: Seq<char>) -> bool
    decreases a.len(),
{
    if a.len() == 0 {
        true
    } else if b.len() == 0 {
        false
    } else if a[0] != b[0] {
        a[0] < b[0]
    } else {
        seq_le(a.drop_first(), b.drop_first())
    }
}

/// Any two texts are ordered one way or the other.
pub proof fn lemma_seq_le_total(a: Seq<char>, b: Seq<char>)
    ensures
        seq_le(a, b) || seq_le(b, a),
    decreases a.len(),
{
    if a.len() > 0 && b.len() > 0 && a[0] == b[0] {
        lemma_seq_le_total(a.drop_first(), b.drop_first());
    }
}

/// Every text comes no later than itself.
pub proof fn lemma_seq_le_refl(a: Seq<char>)
    ensures
        seq_le(a, a),
    decreases a.len(),
{
    if a.len() > 0 {
        lemma_seq_le_refl(a.drop_first());
    }
}

/// The order is transitive.
pub proof fn lemma_seq_le_trans(a: Seq<char>, b: Seq<char>, c: Seq<char>)
    requires
        seq_le(a, b),
        seq_le(b, c),
    ensures
        seq_le(a, c),
    decreases a.len(),
{
    if a.len() > 0 && b.len() > 0 && c.len() > 0 && a[0] == b[0] && b[0] == c[0] {
        lemma_seq_le_trans(a.drop_first(), b.drop_first(), c.drop_first());
    }
}

/// `a` comes strictly before `b`.
pub open spec fn seq_lt(a: Seq<char>, b: Seq<char>) -> bool {
    !seq_le(b, a)
}

/// Texts that agree before position `k` and differ there, the smaller
/// char first, are strictly ordered.
pub proof fn lemma_seq_lt_at(a: Seq<char>, b: Seq<char>, k: int)
    requires
        0 <= k < a.len(),
        k < b.len(),
        forall|i: int| 0 <= i < k ==> a[i] == b[i],
        a[k] < b[k],
    ensures
        seq_lt(a, b),
    decreases k,
{
    if k > 0 {
        assert(a[0] == b[0]);
        lemma_seq_lt_at(a.drop_first(), b.drop_first(), k - 1);
    }
}

/// A proper prefix comes strictly before the text it starts.
pub proof fn lemma_seq_lt_prefix(a: Seq<char>, b: Seq<char>)
    requires
        a.len() < b.len(),
        forall|i: int| 0 <= i < a.len() ==> a[i] == b[i],
    ensures
        seq_lt(a, b),
    decreases a.len(),
{
    if a.len() > 0 {
        assert(a[0] == b[0]);
        lemma_seq_lt_prefix(a.drop_first(), b.drop_first());
    }
}

/// Each text of `v` strictly before the next.
pub open spec fn strictly_sorted(v: Seq<Seq<char>>) -> bool {
    forall|j: int| 0 <= j < v.len() - 1 ==> seq_lt(#[trigger] v[j], v[j + 1])
}

/// In a strictly sorted list no text occurs twice.
pub proof fn lemma_strictly_sorted_distinct(v: Seq<Seq<char>>)
    requires
        strictly_sorted(v),
    ensures
        forall|i: int, j: int| 0 <= i < j < v.len() ==> seq_lt(#[trigger] v[i], #[trigger] v[j]),
        forall|i: int, j: int| 0 <= i < j < v.len() ==> #[trigger] v[i] != #[trigger] v[j],
{
    assert forall|i: int, j: int| 0 <= i < j < v.len() implies seq_lt(#[trigger] v[i], #[trigger] v[j]) by {
        lemma_strictly_sorted_from(v, i, j);
    }
    assert forall|i: int, j: int| 0 <= i < j < v.len() implies #[trigger] v[i] != #[trigger] v[j] by {
        lemma_strictly_sorted_from(v, i, j);
        lemma_seq_le_refl(v[i]);
    }
}

proof fn lemma_strictly_sorted_from(v: Seq<Seq<char>>, i: int, j: int)
    requires
        strictly_sorted(v),
        0 <= i < j < v.len(),
    ensures
        seq_lt(v[i], v[j]),
    decreases j - i,
{
    if j > i + 1 {
        lemma_strictly_sorted_from(v, i, j - 1);
        assert(seq_lt(v[j - 1], v[j]));
        lemma_seq_le_total(v[i], v[j - 1]);
        if seq_le(v[j], v[i]) {
            lemma_seq_le_trans(v[j], v[i], v[j - 1]);
        }
    }
}

/// Does `a` come no later than `b`?
pub fn str_le(a: &str, b: &str) -> (r: bool)
    ensures
        r == seq_le(a@, b@),
{
    let va = chars_of(a);
    let vb = chars_of(b);
    let mut i: usize = 0;
    assert(va@.subrange(0, va@.len() as int) =~= va@);
    assert(vb@.subrange(0, vb@.len() as int) =~= vb@);
    while i < va.len() && i < vb.len() && va[i] == vb[i]
        invariant
            i <= va@.len(),
            i <= vb@.len(),
            va@ == a@,
            vb@ == b@,
            seq_le(a@, b@) == seq_le(va@.subrange(i as int, va@.len() as int), vb@.subrange(i as int, vb@.len() as int)),
        decreases va@.len() - i,
    {
        assert(va@.subrange(i as int, va@.len() as int).drop_first() =~= va@.subrange(i + 1, va@.len() as int));
        assert(vb@.subrange(i as int, vb@.len() as int).drop_first() =~= vb@.subrange(i + 1, vb@.len() as int));
        i += 1;
    }
    let ghost ra = va@.subrange(i as int, va@.len() as int);
    let ghost rb = vb@.subrange(i as int, vb@.len() as int);
    if i == va.len() {
        true
    } else if i == vb.len() {
        false
    } else {
        assert(ra[0] == va@[i as int] && rb[0] == vb@[i as int]);
        va[i] < vb[i]
    }
}

/// The texts of a list of strings.
pub open spec fn texts(v: Seq<String>) -> Seq<Seq<char>> {
    v.map_values(|s: String| s@)
}

/// `v` is in order, each text no later than the next.
pub open spec fn sorted_texts(v: Seq<Seq<char>>) -> bool {
    forall|j: int| 0 <= j < v.len() - 1 ==> seq_le(#[trigger] v[j], v[j + 1])
}

pub proof fn lemma_insert_keeps_sorted(v: Seq<Seq<char>>, p: int, d: Seq<char>)
    requires
        sorted_texts(v),
        0 <= p <= v.len(),
        forall|j: int| 0 <= j < p ==> seq_le(#[trigger] v[j], d),
        p < v.len() ==> !seq_le(v[p], d),
    ensures
        sorted_texts(v.insert(p, d)),
{
    let nd = v.insert(p, d);
    if p < v.len() {
        lemma_seq_le_total(v[p], d);
    }
    assert forall|j: int| 0 <= j < nd.len() - 1 implies seq_le(#[trigger] nd[j], nd[j + 1]) by {
        if j + 1 < p {
            assert(nd[j] == v[j] && nd[j + 1] == v[j + 1]);
        } else if j + 1 == p {
            assert(nd[j] == v[j]);
        } else if j == p {
            assert(nd[j + 1] == v[j]);
        } else {
            assert(nd[j] == v[j - 1] && nd[j + 1] == v[j]);
        }
    }
}

/// The strings of `v` in order: the same strings, as many times each,
/// each no later than the next.
pub fn sort_strings(v: Vec<String>) -> (r: Vec<String>)
    ensures
        texts(r@).to_multiset() == texts(v@).to_multiset(),
        sorted_texts(texts(r@)),
{
    broadcast use vstd::seq_lib::group_to_multiset_ensures;
    let mut out: Vec<String> = Vec::new();
    let mut i: usize = 0;
    assert(texts(out@) =~= Seq::<Seq<char>>::empty());
    while i < v.len()
        invariant
            i <= v@.len(),
            texts(out@).to_multiset() == texts(v@.subrange(0, i as int)).to_multiset(),
            sorted_texts(texts(out@)),
        decreases v@.len() - i,
    {
        let s = v[i].clone();
        let mut p: usize = 0;
        while p < out.len() && str_le(out[p].as_str(), s.as_str())
            invariant
                p <= out@.len(),
                forall|j: int| 0 <= j < p ==> seq_le((#[trigger] out@[j])@, s@),
            decreases out@.len() - p,
        {
            p += 1;
        }
        let ghost before = texts(out@);
        proof {
            assert forall|j: int| 0 <= j < p implies seq_le(#[trigger] before[j], s@) by {
                assert(before[j] == out@[j]@);
            }
            if p < out@.len() {
                assert(before[p as int] == out@[p as int]@);
            }
            lemma_insert_keeps_sorted(before, p as int, s@);
        }
        out.insert(p, s);
        proof {
            assert(texts(out@) =~= before.insert(p as int, v@[i as int]@));
            vstd::seq_lib::to_multiset_insert(before, p as int, v@[i as int]@);
            assert(texts(v@.subrange(0, i + 1)) =~= texts(v@.subrange(0, i as int)).push(v@[i as int]@));
            vstd::seq_lib::to_multiset_build(texts(v@.subrange(0, i as int)), v@[i as int]@);
        }
        i += 1;
    }
    assert(v@.subrange(0, v@.len() as int) =~= v@);
    out
}

} // verus!
