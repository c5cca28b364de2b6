//! Association lists as maps: the mathematics shared by the collections of
//! this library that keep their entries in a vector.

use vstd::prelude::*;

verus! {

/// Whether no key occurs twice among the pairs.
pub open spec fn distinct_keys<K, V>(pairs: Seq<(K, V)>) -> bool {
    forall|i: int, j: int| 0 <= i < j < pairs.len() ==> pairs[i].0 != pairs[j].0
}

/// Whether pair `i` has the key `key`.
pub open spec fn keyed<K, V>(pairs: Seq<(K, V)>, key: K, i: int) -> bool {
    0 <= i < pairs.len() && pairs[i].0 == key
}

/// The map that the pairs stand for: each key with the value beside it.
pub open spec fn assoc_map<K, V>(pairs: Seq<(K, V)>) -> Map<K, V> {
    Map::new(
        |key: K| exists|i: int| keyed(pairs, key, i),
        |key: K| pairs[choose|i: int| keyed(pairs, key, i)].1,
    )
}

/// The key of pair `i` maps to the value of pair `i`.
pub proof fn lemma_assoc_at<K, V>(pairs: Seq<(K, V)>, i: int)
    requires
        distinct_keys(pairs),
        0 <= i < pairs.len(),
    ensures
        assoc_map(pairs).contains_key(pairs[i].0),
        assoc_map(pairs)[pairs[i].0] == pairs[i].1,
{
    let key = pairs[i].0;
    assert(keyed(pairs, key, i));
    let chosen = choose|c: int| keyed(pairs, key, c);
    assert(keyed(pairs, key, chosen));
    assert(chosen == i);
}

/// A key that no pair has is not in the map.
pub proof fn lemma_assoc_absent<K, V>(pairs: Seq<(K, V)>, key: K)
    requires
        forall|i: int| 0 <= i < pairs.len() ==> (#[trigger] pairs[i]).0 != key,
    ensures
        !assoc_map(pairs).contains_key(key),
{
    assert forall|i: int| !keyed(pairs, key, i) by {
        if 0 <= i < pairs.len() {
            assert(pairs[i].0 != key);
        }
    }
}

/// No pairs, no keys.
pub proof fn lemma_assoc_empty<K, V>(pairs: Seq<(K, V)>)
    requires
        pairs.len() == 0,
    ensures
        assoc_map(pairs) == (Map::<K, V>::empty()),
{
    assert forall|key: K| !assoc_map(pairs).contains_key(key) by {
        lemma_assoc_absent(pairs, key);
    }
    assert(assoc_map(pairs) =~= Map::<K, V>::empty());
}

/// Replacing the value of pair `i` inserts it under that pair's key.
pub proof fn lemma_assoc_update<K, V>(pairs: Seq<(K, V)>, i: int, value: V)
    requires
        distinct_keys(pairs),
        0 <= i < pairs.len(),
    ensures
        distinct_keys(pairs.update(i, (pairs[i].0, value))),
        assoc_map(pairs.update(i, (pairs[i].0, value))) == assoc_map(pairs).insert(
            pairs[i].0,
            value,
        ),
{
    let after = pairs.update(i, (pairs[i].0, value));
    assert(distinct_keys(after)) by {
        assert forall|a: int, b: int| 0 <= a < b < after.len() implies after[a].0 != after[b].0 by {
            assert(after[a].0 == pairs[a].0);
            assert(after[b].0 == pairs[b].0);
        }
    }
    let expected = assoc_map(pairs).insert(pairs[i].0, value);
    assert forall|key: K| assoc_map(after).contains_key(key) == expected.contains_key(key) by {
        if assoc_map(after).contains_key(key) {
            let c = choose|c: int| keyed(after, key, c);
            assert(keyed(pairs, key, c));
        }
        if expected.contains_key(key) && key != pairs[i].0 {
            let c = choose|c: int| keyed(pairs, key, c);
            assert(keyed(after, key, c));
        }
        if key == pairs[i].0 {
            assert(keyed(after, key, i));
        }
    }
    assert forall|key: K| assoc_map(after).contains_key(key) implies assoc_map(after)[key]
        == expected[key] by {
        let c = choose|c: int| keyed(after, key, c);
        assert(keyed(after, key, c));
        lemma_assoc_at(after, c);
        if c != i {
            assert(keyed(pairs, key, c));
            lemma_assoc_at(pairs, c);
        }
    }
    assert(assoc_map(after) =~= expected);
}

/// Appending a pair whose key is new inserts it.
pub proof fn lemma_assoc_push<K, V>(pairs: Seq<(K, V)>, key: K, value: V)
    requires
        distinct_keys(pairs),
        forall|i: int| 0 <= i < pairs.len() ==> (#[trigger] pairs[i]).0 != key,
    ensures
        distinct_keys(pairs.push((key, value))),
        assoc_map(pairs.push((key, value))) == assoc_map(pairs).insert(key, value),
{
    let after = pairs.push((key, value));
    assert(distinct_keys(after)) by {
        assert forall|a: int, b: int| 0 <= a < b < after.len() implies after[a].0 != after[b].0 by {
            assert(after[a] == pairs[a]);
            if b < pairs.len() {
                assert(after[b] == pairs[b]);
            }
        }
    }
    let expected = assoc_map(pairs).insert(key, value);
    assert forall|k: K| assoc_map(after).contains_key(k) == expected.contains_key(k) by {
        if assoc_map(after).contains_key(k) && k != key {
            let c = choose|c: int| keyed(after, k, c);
            assert(keyed(pairs, k, c));
        }
        if expected.contains_key(k) && k != key {
            let c = choose|c: int| keyed(pairs, k, c);
            assert(keyed(after, k, c));
        }
        if k == key {
            assert(keyed(after, k, pairs.len() as int));
        }
    }
    assert forall|k: K| assoc_map(after).contains_key(k) implies assoc_map(after)[k]
        == expected[k] by {
        let c = choose|c: int| keyed(after, k, c);
        assert(keyed(after, k, c));
        lemma_assoc_at(after, c);
        if c < pairs.len() {
            assert(keyed(pairs, k, c));
            lemma_assoc_at(pairs, c);
        }
    }
    assert(assoc_map(after) =~= expected);
}

} // verus!
