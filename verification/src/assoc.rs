//! Association lists read as maps.
//!
//! A list of key-value pairs stands for the map in which each key has the
//! value of its last pair. The lemmas here relate lookups and updates on
//! the list to the map, and describe how two maps are merged.

use vstd::prelude::*;

verus! {

/// The map that a list of pairs stands for: where a key occurs more than
/// once, its last pair counts.
pub open spec fn pairs_map<A, B>(s: Seq<(A, B)>) -> Map<A, B>
    decreases s.len(),
{
    if s.len() == 0 {
        Map::empty()
    } else {
        pairs_map(s.drop_last()).insert(s.last().0, s.last().1)
    }
}

/// The position of the last pair with key `k`, or `-1` if there is none.
pub open spec fn last_index<A, B>(s: Seq<(A, B)>, k: A) -> int
    decreases s.len(),
{
    if s.len() == 0 {
        -1
    } else if s.last().0 == k {
        s.len() - 1
    } else {
        last_index(s.drop_last(), k)
    }
}

/// The last pair of a key is where the map's value for it comes from.
pub proof fn lemma_lookup<A, B>(s: Seq<(A, B)>, k: A)
    ensures
        -1 <= last_index(s, k) < s.len(),
        last_index(s, k) >= 0 <==> pairs_map(s).dom().contains(k),
        last_index(s, k) >= 0 ==> s[last_index(s, k)].0 == k && pairs_map(s)[k] == s[last_index(
            s,
            k,
        )].1,
        forall|j: int| last_index(s, k) < j < s.len() ==> (#[trigger] s[j]).0 != k,
    decreases s.len(),
{
    if s.len() > 0 {
        lemma_lookup(s.drop_last(), k);
        if s.last().0 != k {
            assert forall|j: int| last_index(s, k) < j < s.len() implies (#[trigger] s[j]).0
                != k by {
                if j < s.len() - 1 {
                    assert(s.drop_last()[j] == s[j]);
                }
            }
        }
    }
}

/// A pair after which its key does not occur again is the key's last.
pub proof fn lemma_last_index_is<A, B>(s: Seq<(A, B)>, k: A, i: int)
    requires
        0 <= i < s.len(),
        s[i].0 == k,
        forall|j: int| i < j < s.len() ==> (#[trigger] s[j]).0 != k,
    ensures
        last_index(s, k) == i,
    decreases s.len(),
{
    if i < s.len() - 1 {
        assert(s.last() == s[s.len() - 1]);
        assert(s.drop_last()[i] == s[i]);
        assert forall|j: int| i < j < s.drop_last().len() implies (#[trigger] s.drop_last()[j]).0
            != k by {
            assert(s.drop_last()[j] == s[j]);
        }
        lemma_last_index_is(s.drop_last(), k, i);
    }
}

/// A key that no pair has is not in the map.
pub proof fn lemma_absent<A, B>(s: Seq<(A, B)>, k: A)
    requires
        forall|j: int| 0 <= j < s.len() ==> (#[trigger] s[j]).0 != k,
    ensures
        last_index(s, k) == -1,
        !pairs_map(s).dom().contains(k),
    decreases s.len(),
{
    if s.len() > 0 {
        assert(s.last() == s[s.len() - 1]);
        assert forall|j: int| 0 <= j < s.drop_last().len() implies (#[trigger] s.drop_last()[j]).0
            != k by {
            assert(s.drop_last()[j] == s[j]);
        }
        lemma_absent(s.drop_last(), k);
    }
}

/// Appending a pair sets its key in the map.
pub proof fn lemma_push<A, B>(s: Seq<(A, B)>, k: A, b: B)
    ensures
        pairs_map(s.push((k, b))) == pairs_map(s).insert(k, b),
{
    assert(s.push((k, b)).drop_last() == s);
}

/// Replacing the value of a key's last pair sets the key in the map.
pub proof fn lemma_update<A, B>(s: Seq<(A, B)>, i: int, b: B)
    requires
        0 <= i < s.len(),
        last_index(s, s[i].0) == i,
    ensures
        pairs_map(s.update(i, (s[i].0, b))) == pairs_map(s).insert(s[i].0, b),
    decreases s.len(),
{
    let k = s[i].0;
    let t = s.update(i, (k, b));
    if i == s.len() - 1 {
        assert(t.drop_last() == s.drop_last());
        assert(pairs_map(t) =~= pairs_map(s).insert(k, b));
    } else {
        assert(s.last().0 != k);
        assert(s.drop_last()[i] == s[i]);
        assert(t.drop_last() == s.drop_last().update(i, (k, b)));
        lemma_update(s.drop_last(), i, b);
        assert(t.last() == s.last());
        assert(pairs_map(t) =~= pairs_map(s).insert(k, b));
    }
}

/// The number of different keys in a list of pairs.
pub open spec fn distinct_keys<A, B>(s: Seq<(A, B)>) -> nat
    decreases s.len(),
{
    if s.len() == 0 {
        0
    } else {
        distinct_keys(s.drop_last()) + if pairs_map(s.drop_last()).dom().contains(s.last().0) {
            0nat
        } else {
            1nat
        }
    }
}

/// The map of a list has as many keys as the list has different keys.
pub proof fn lemma_distinct_keys<A, B>(s: Seq<(A, B)>)
    ensures
        pairs_map(s).dom().finite(),
        pairs_map(s).dom().len() == distinct_keys(s),
    decreases s.len(),
{
    if s.len() > 0 {
        lemma_distinct_keys(s.drop_last());
        assert(pairs_map(s).dom() =~= pairs_map(s.drop_last()).dom().insert(s.last().0));
    } else {
        assert(pairs_map(s).dom() =~= Set::<A>::empty());
    }
}

/// The part of a list's map that its first `j` pairs settle: the keys
/// whose last pair is among them.
pub open spec fn settled<A, B>(s: Seq<(A, B)>, j: int) -> Map<A, B> {
    Map::new(|k: A| 0 <= last_index(s, k) < j, |k: A| pairs_map(s)[k])
}

/// No pair settles nothing; all pairs settle the whole map.
pub proof fn lemma_settled_ends<A, B>(s: Seq<(A, B)>)
    ensures
        settled(s, 0) == Map::<A, B>::empty(),
        settled(s, s.len() as int) == pairs_map(s),
{
    assert(settled(s, 0) =~= Map::<A, B>::empty());
    assert forall|k: A| #[trigger]
        settled(s, s.len() as int).dom().contains(k) == pairs_map(s).dom().contains(k) by {
        lemma_lookup(s, k);
    }
    assert(settled(s, s.len() as int) =~= pairs_map(s));
}

/// One more pair settles its key if it is the key's last, and nothing
/// otherwise.
pub proof fn lemma_settled_step<A, B>(s: Seq<(A, B)>, j: int)
    requires
        0 <= j < s.len(),
    ensures
        last_index(s, s[j].0) == j ==> !settled(s, j).dom().contains(s[j].0) && settled(s, j + 1)
            == settled(s, j).insert(s[j].0, s[j].1),
        last_index(s, s[j].0) != j ==> settled(s, j + 1) == settled(s, j),
{
    let k = s[j].0;
    lemma_lookup(s, k);
    if last_index(s, k) == j {
        assert forall|x: A| #[trigger]
            settled(s, j + 1).dom().contains(x) == settled(s, j).insert(k, s[j].1).dom().contains(
                x,
            ) by {
            lemma_lookup(s, x);
        }
        assert(settled(s, j + 1) =~= settled(s, j).insert(k, s[j].1));
    } else {
        assert forall|x: A| #[trigger]
            settled(s, j + 1).dom().contains(x) == settled(s, j).dom().contains(x) by {
            lemma_lookup(s, x);
            if last_index(s, x) == j {
                assert(s[j].0 == x);
            }
        }
        assert(settled(s, j + 1) =~= settled(s, j));
    }
}

/// Two maps merged: a key of one map alone keeps its value, and a key of
/// both gets the two values combined.
pub open spec fn merged_maps<K, V>(
    known: Map<K, V>,
    incoming: Map<K, V>,
    combine: spec_fn(V, V) -> V,
) -> Map<K, V> {
    Map::new(
        |k: K| known.dom().contains(k) || incoming.dom().contains(k),
        |k: K|
            if !incoming.dom().contains(k) {
                known[k]
            } else if !known.dom().contains(k) {
                incoming[k]
            } else {
                combine(known[k], incoming[k])
            },
    )
}

/// Merging nothing changes nothing.
pub proof fn lemma_merge_nothing<K, V>(known: Map<K, V>, combine: spec_fn(V, V) -> V)
    ensures
        merged_maps(known, Map::empty(), combine) == known,
{
    assert(merged_maps(known, Map::empty(), combine) =~= known);
}

/// Merging one more key sets that key and leaves the others.
pub proof fn lemma_merge_one_more<K, V>(
    known: Map<K, V>,
    incoming: Map<K, V>,
    k: K,
    v: V,
    combine: spec_fn(V, V) -> V,
)
    requires
        !incoming.dom().contains(k),
    ensures
        merged_maps(known, incoming.insert(k, v), combine) == merged_maps(
            known,
            incoming,
            combine,
        ).insert(
            k,
            if known.dom().contains(k) {
                combine(known[k], v)
            } else {
                v
            },
        ),
        merged_maps(known, incoming, combine).dom().contains(k) == known.dom().contains(k),
        known.dom().contains(k) ==> merged_maps(known, incoming, combine)[k] == known[k],
{
    assert(merged_maps(known, incoming.insert(k, v), combine) =~= merged_maps(
        known,
        incoming,
        combine,
    ).insert(
        k,
        if known.dom().contains(k) {
            combine(known[k], v)
        } else {
            v
        },
    ));
}

/// Merging the same map a second time changes nothing, where combining
/// with the same value a second time changes nothing.
pub proof fn lemma_merge_twice<K, V>(
    known: Map<K, V>,
    incoming: Map<K, V>,
    combine: spec_fn(V, V) -> V,
)
    requires
        forall|x: V, y: V| #[trigger] combine(combine(x, y), y) == combine(x, y),
        forall|y: V| #[trigger] combine(y, y) == y,
    ensures
        merged_maps(merged_maps(known, incoming, combine), incoming, combine) == merged_maps(
            known,
            incoming,
            combine,
        ),
{
    assert(merged_maps(merged_maps(known, incoming, combine), incoming, combine) =~= merged_maps(
        known,
        incoming,
        combine,
    ));
}

} // verus!
