//! Lists of key/value pairs and the maps that they stand for.
//!
//! A registry keeps its records in a vector and is read as a map from key to
//! record. The functions here say which map a list of pairs stands for, and
//! the lemmas say how that map changes when the list does.

use vstd::prelude::*;

verus! {

/// The map that a list of pairs stands for. Where a key occurs twice, the
/// later pair wins.
pub open spec fn assoc_map<K, V>(pairs: Seq<(K, V)>) -> Map<K, V>
    decreases pairs.len(),
{
    if pairs.len() == 0 {
        Map::empty()
    } else {
        assoc_map(pairs.drop_last()).insert(pairs.last().0, pairs.last().1)
    }
}

/// No key occurs twice in the list.
pub open spec fn distinct_keys<K, V>(pairs: Seq<(K, V)>) -> bool {
    forall|i: int, j: int| 0 <= i < j < pairs.len() ==> pairs[i].0 != pairs[j].0
}

/// The list holds the key `key` at some position.
pub open spec fn has_key<K, V>(pairs: Seq<(K, V)>, key: K) -> bool {
    exists|i: int| 0 <= i < pairs.len() && #[trigger] pairs[i].0 == key
}

/// The map's keys are the keys that occur in the list.
pub proof fn lemma_assoc_domain<K, V>(pairs: Seq<(K, V)>, key: K)
    ensures
        assoc_map(pairs).contains_key(key) <==> has_key(pairs, key),
    decreases pairs.len(),
{
    if pairs.len() > 0 {
        let front = pairs.drop_last();
        lemma_assoc_domain(front, key);
        if has_key(pairs, key) {
            let i = choose|i: int| 0 <= i < pairs.len() && #[trigger] pairs[i].0 == key;
            if i < pairs.len() - 1 {
                assert(front[i].0 == key);
            }
        }
        if has_key(front, key) {
            let i = choose|i: int| 0 <= i < front.len() && #[trigger] front[i].0 == key;
            assert(pairs[i].0 == key);
        }
    }
}

/// A key that no pair holds is not in the map.
pub proof fn lemma_assoc_absent<K, V>(pairs: Seq<(K, V)>, key: K)
    requires
        forall|i: int| 0 <= i < pairs.len() ==> pairs[i].0 != key,
    ensures
        !assoc_map(pairs).contains_key(key),
{
    lemma_assoc_domain(pairs, key);
}

/// With distinct keys, the map sends the key of each pair to its value.
pub proof fn lemma_assoc_index<K, V>(pairs: Seq<(K, V)>, i: int)
    requires
        distinct_keys(pairs),
        0 <= i < pairs.len(),
    ensures
        assoc_map(pairs).contains_key(pairs[i].0),
        assoc_map(pairs)[pairs[i].0] == pairs[i].1,
    decreases pairs.len(),
{
    if i < pairs.len() - 1 {
        let front = pairs.drop_last();
        assert(distinct_keys(front));
        lemma_assoc_index(front, i);
    }
}

/// A pair added at the end is an insertion into the map.
pub proof fn lemma_assoc_push<K, V>(pairs: Seq<(K, V)>, key: K, value: V)
    ensures
        assoc_map(pairs.push((key, value))) == assoc_map(pairs).insert(key, value),
{
    assert(pairs.push((key, value)).drop_last() =~= pairs);
}

/// With distinct keys, a new value for the pair at `i` is an insertion into
/// the map under that pair's key.
pub proof fn lemma_assoc_update<K, V>(pairs: Seq<(K, V)>, i: int, value: V)
    requires
        distinct_keys(pairs),
        0 <= i < pairs.len(),
    ensures
        distinct_keys(pairs.update(i, (pairs[i].0, value))),
        assoc_map(pairs.update(i, (pairs[i].0, value))) == assoc_map(pairs).insert(
            pairs[i].0,
            value,
        ),
    decreases pairs.len(),
{
    let key = pairs[i].0;
    let after = pairs.update(i, (key, value));
    let front = pairs.drop_last();
    assert(distinct_keys(after));
    if i == pairs.len() - 1 {
        assert(after.drop_last() =~= front);
    } else {
        assert(distinct_keys(front));
        lemma_assoc_update(front, i, value);
        assert(after.drop_last() =~= front.update(i, (key, value)));
    }
}

} // verus!
