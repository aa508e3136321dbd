//! Association lists: a sequence of `(key, value)` entries read as a map,
//! the later entry for a key winning.

use vstd::prelude::*;

verus! {

/// The map an association list denotes: each entry inserted in turn.
pub open spec fn assoc_map<K, V>(es: Seq<(K, V)>) -> Map<K, V>
    decreases es.len(),
{
    if es.len() == 0 {
        Map::<K, V>::empty()
    } else {
        assoc_map(es.drop_last()).insert(es.last().0, es.last().1)
    }
}

/// No key occurs twice.
pub open spec fn keys_unique<K, V>(es: Seq<(K, V)>) -> bool {
    forall|i: int, j: int| 0 <= i < j < es.len() ==> (#[trigger] es[i]).0 != (#[trigger] es[j]).0
}

/// A key is in the map exactly when some entry carries it.
pub proof fn lemma_assoc_dom<K, V>(es: Seq<(K, V)>, k: K)
    ensures
        assoc_map(es).dom().contains(k) <==> exists|i: int| 0 <= i < es.len() && (#[trigger] es[i]).0 == k,
    decreases es.len(),
{
    if es.len() > 0 {
        lemma_assoc_dom(es.drop_last(), k);
        if exists|i: int| 0 <= i < es.drop_last().len() && (#[trigger] es.drop_last()[i]).0 == k {
            let i = choose|i: int| 0 <= i < es.drop_last().len() && (#[trigger] es.drop_last()[i]).0 == k;
            assert(es[i].0 == k);
        }
        if exists|i: int| 0 <= i < es.len() && (#[trigger] es[i]).0 == k {
            let i = choose|i: int| 0 <= i < es.len() && (#[trigger] es[i]).0 == k;
            if i < es.len() - 1 {
                assert(es.drop_last()[i].0 == k);
            }
        }
    }
}

/// With unique keys, each entry's value is what the map holds for its key.
pub proof fn lemma_assoc_index<K, V>(es: Seq<(K, V)>, i: int)
    requires
        keys_unique(es),
        0 <= i < es.len(),
    ensures
        assoc_map(es).dom().contains(es[i].0),
        assoc_map(es)[es[i].0] == es[i].1,
    decreases es.len(),
{
    if i < es.len() - 1 {
        let d = es.drop_last();
        assert(d[i] == es[i]);
        assert(keys_unique(d)) by {
            assert forall|a: int, b: int| 0 <= a < b < d.len() implies (#[trigger] d[a]).0 != (#[trigger] d[b]).0 by {
                assert(d[a] == es[a] && d[b] == es[b]);
            }
        }
        lemma_assoc_index(d, i);
        assert(es.last().0 != es[i].0) by {
            assert(es[i].0 != es[es.len() - 1].0);
        }
    }
}

/// Appending an entry for a new key keeps keys unique and adds it to the map.
pub proof fn lemma_assoc_push<K, V>(es: Seq<(K, V)>, k: K, v: V)
    requires
        keys_unique(es),
        !assoc_map(es).dom().contains(k),
    ensures
        keys_unique(es.push((k, v))),
        assoc_map(es.push((k, v))) == assoc_map(es).insert(k, v),
{
    lemma_assoc_dom(es, k);
    assert(es.push((k, v)).drop_last() =~= es);
    let n = es.push((k, v));
    assert forall|i: int, j: int| 0 <= i < j < n.len() implies (#[trigger] n[i]).0 != (#[trigger] n[j]).0 by {
        if j == es.len() {
            assert(n[i] == es[i]);
        } else {
            assert(n[i] == es[i] && n[j] == es[j]);
        }
    }
}

/// Replacing the value of an entry keeps keys unique and updates the map at
/// that key.
pub proof fn lemma_assoc_update<K, V>(es: Seq<(K, V)>, i: int, v: V)
    requires
        keys_unique(es),
        0 <= i < es.len(),
    ensures
        keys_unique(es.update(i, (es[i].0, v))),
        assoc_map(es.update(i, (es[i].0, v))) == assoc_map(es).insert(es[i].0, v),
    decreases es.len(),
{
    let n = es.update(i, (es[i].0, v));
    assert forall|a: int, b: int| 0 <= a < b < n.len() implies (#[trigger] n[a]).0 != (#[trigger] n[b]).0 by {
        assert(n[a].0 == es[a].0 && n[b].0 == es[b].0);
    }
    if i == es.len() - 1 {
        assert(n.drop_last() =~= es.drop_last());
        assert(assoc_map(n) =~= assoc_map(es).insert(es[i].0, v));
    } else {
        let d = es.drop_last();
        assert(keys_unique(d)) by {
            assert forall|a: int, b: int| 0 <= a < b < d.len() implies (#[trigger] d[a]).0 != (#[trigger] d[b]).0 by {
                assert(d[a] == es[a] && d[b] == es[b]);
            }
        }
        assert(d[i] == es[i]);
        lemma_assoc_update(d, i, v);
        assert(n.drop_last() =~= d.update(i, (es[i].0, v)));
        assert(es.last().0 != es[i].0) by {
            assert(es[i].0 != es[es.len() - 1].0);
        }
        assert(n.last() == es.last());
        assert(assoc_map(n) =~= assoc_map(es).insert(es[i].0, v));
    }
}

} // verus!
