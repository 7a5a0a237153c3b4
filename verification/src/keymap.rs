//! The mathematical model of identifier-keyed association vectors.
//!
//! Both the cache and the in-memory overlay store their per-document state as
//! a vector of `(identifier, value)` pairs with pairwise-distinct keys, and
//! state their contracts over the finite map those pairs denote. The spec
//! function and lemmas here are that denotation.

use vstd::prelude::*;

verus! {

/// The finite map denoted by a sequence of key/value pairs; on duplicate
/// keys the later pair wins.
pub open spec fn pairs_map<T>(s: Seq<(Seq<u8>, T)>) -> Map<Seq<u8>, T>
    decreases s.len(),
{
    if s.len() == 0 {
        Map::empty()
    } else {
        pairs_map(s.drop_last()).insert(s.last().0, s.last().1)
    }
}

/// No two pairs share a key.
pub open spec fn distinct_keys<T>(s: Seq<(Seq<u8>, T)>) -> bool {
    forall|i: int, j: int| 0 <= i < j < s.len() ==> s[i].0 != s[j].0
}

/// A key is in the map exactly when some pair holds it.
pub proof fn lemma_pairs_map_contains<T>(s: Seq<(Seq<u8>, T)>, k: Seq<u8>)
    ensures
        pairs_map(s).contains_key(k) <==> exists|i: int| 0 <= i < s.len() && s[i].0 == k,
    decreases s.len(),
{
    if s.len() > 0 {
        lemma_pairs_map_contains(s.drop_last(), k);
        if s.last().0 == k {
            assert(s[s.len() - 1].0 == k);
        } else if pairs_map(s).contains_key(k) {
            let i = choose|i: int| 0 <= i < s.drop_last().len() && s.drop_last()[i].0 == k;
            assert(s[i].0 == k);
        } else {
            assert forall|i: int| 0 <= i < s.len() implies s[i].0 != k by {
                if i < s.len() - 1 {
                    assert(s.drop_last()[i].0 == s[i].0);
                }
            }
        }
    }
}

/// With distinct keys, the pair holding a key gives its value in the map.
pub proof fn lemma_pairs_map_index<T>(s: Seq<(Seq<u8>, T)>, i: int)
    requires
        distinct_keys(s),
        0 <= i < s.len(),
    ensures
        pairs_map(s).contains_key(s[i].0),
        pairs_map(s)[s[i].0] == s[i].1,
    decreases s.len(),
{
    lemma_pairs_map_contains(s, s[i].0);
    if i < s.len() - 1 {
        assert(s.last().0 != s[i].0);
        assert(s.drop_last()[i] == s[i]);
        lemma_pairs_map_index(s.drop_last(), i);
    }
}

/// Appending a pair with a fresh key inserts it into the map.
pub proof fn lemma_pairs_map_push<T>(s: Seq<(Seq<u8>, T)>, k: Seq<u8>, v: T)
    ensures
        pairs_map(s.push((k, v))) == pairs_map(s).insert(k, v),
{
    let s2 = s.push((k, v));
    assert(s2.drop_last() =~= s);
    assert(s2.last() == (k, v));
}

/// Overwriting the pair that holds a key updates its map entry in place.
pub proof fn lemma_pairs_map_update<T>(s: Seq<(Seq<u8>, T)>, i: int, v: T)
    requires
        distinct_keys(s),
        0 <= i < s.len(),
    ensures
        pairs_map(s.update(i, (s[i].0, v))) == pairs_map(s).insert(s[i].0, v),
        distinct_keys(s.update(i, (s[i].0, v))),
    decreases s.len(),
{
    let k = s[i].0;
    let s2 = s.update(i, (k, v));
    assert forall|p: int, q: int| 0 <= p < q < s2.len() implies s2[p].0 != s2[q].0 by {
        assert(s2[p].0 == s[p].0);
        assert(s2[q].0 == s[q].0);
    }
    if i == s.len() - 1 {
        assert(s2.drop_last() =~= s.drop_last());
        assert(s2.last() == (k, v));
        assert(pairs_map(s2) == pairs_map(s.drop_last()).insert(k, v));
        assert(pairs_map(s).insert(k, v) == pairs_map(s.drop_last()).insert(s.last().0, s.last().1).insert(k, v));
        assert(s.last().0 == k);
        assert(pairs_map(s.drop_last()).insert(k, s.last().1).insert(k, v)
            =~= pairs_map(s.drop_last()).insert(k, v));
    } else {
        assert(s2.drop_last() =~= s.drop_last().update(i, (k, v)));
        assert(s.drop_last()[i] == s[i]);
        lemma_pairs_map_update(s.drop_last(), i, v);
        assert(s2.last() == s.last());
        assert(pairs_map(s2) == pairs_map(s.drop_last()).insert(k, v).insert(s.last().0, s.last().1));
        assert(s.last().0 != k);
        assert(pairs_map(s.drop_last()).insert(k, v).insert(s.last().0, s.last().1)
            =~= pairs_map(s.drop_last()).insert(s.last().0, s.last().1).insert(k, v));
    }
}

/// Removing the pair that holds a key removes its map entry.
pub proof fn lemma_pairs_map_remove<T>(s: Seq<(Seq<u8>, T)>, i: int)
    requires
        distinct_keys(s),
        0 <= i < s.len(),
    ensures
        pairs_map(s.remove(i)) == pairs_map(s).remove(s[i].0),
        distinct_keys(s.remove(i)),
    decreases s.len(),
{
    let k = s[i].0;
    let s2 = s.remove(i);
    assert forall|p: int, q: int| 0 <= p < q < s2.len() implies s2[p].0 != s2[q].0 by {
        let p0: int = if p < i { p } else { p + 1 };
        let q0: int = if q < i { q } else { q + 1 };
        assert(s2[p].0 == s[p0].0);
        assert(s2[q].0 == s[q0].0);
    }
    if i == s.len() - 1 {
        assert(s2 =~= s.drop_last());
        lemma_pairs_map_contains(s.drop_last(), k);
        assert forall|j: int| 0 <= j < s.drop_last().len() implies s.drop_last()[j].0 != k by {
            assert(s.drop_last()[j] == s[j]);
        }
        assert(!pairs_map(s.drop_last()).contains_key(k));
        assert(pairs_map(s) == pairs_map(s.drop_last()).insert(k, s.last().1));
        assert(pairs_map(s).remove(k) =~= pairs_map(s.drop_last()));
    } else {
        assert(s2.drop_last() =~= s.drop_last().remove(i));
        assert(s.drop_last()[i] == s[i]);
        lemma_pairs_map_remove(s.drop_last(), i);
        assert(s2.last() == s.last());
        assert(pairs_map(s2) == pairs_map(s.drop_last()).remove(k).insert(s.last().0, s.last().1));
        assert(s.last().0 != k);
        assert(pairs_map(s.drop_last()).remove(k).insert(s.last().0, s.last().1)
            =~= pairs_map(s.drop_last()).insert(s.last().0, s.last().1).remove(k));
    }
}

} // verus!
