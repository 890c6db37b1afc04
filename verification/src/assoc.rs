//! Association sequences: a sequence of key/value pairs read as a map in which a
//! later pair overrides an earlier one with the same key.

use vstd::prelude::*;

verus! {

/// The map that a sequence of pairs stands for; of two pairs with one key the later wins.
pub open spec fn assoc_map<K, V>(pairs: Seq<(K, V)>) -> Map<K, V>
    decreases pairs.len(),
{
    if pairs.len() == 0 {
        Map::empty()
    } else {
        assoc_map(pairs.drop_last()).insert(pairs.last().0, pairs.last().1)
    }
}

/// No key occurs at two positions.
pub open spec fn distinct_keys<K, V>(pairs: Seq<(K, V)>) -> bool {
    forall|i: int, j: int| 0 <= i < j < pairs.len() ==> pairs[i].0 != pairs[j].0
}

/// Some position of `pairs` holds the key `k`.
pub open spec fn has_key<K, V>(pairs: Seq<(K, V)>, k: K) -> bool {
    exists|i: int| 0 <= i < pairs.len() && pairs[i].0 == k
}

/// The keys of the map are the keys that occur in the sequence.
pub proof fn lemma_assoc_map_dom<K, V>(pairs: Seq<(K, V)>)
    ensures
        forall|k: K| #[trigger] assoc_map(pairs).contains_key(k) <==> has_key(pairs, k),
        assoc_map(pairs).dom().finite(),
        assoc_map(pairs).dom().len() <= pairs.len(),
    decreases pairs.len(),
{
    if pairs.len() > 0 {
        let front = pairs.drop_last();
        lemma_assoc_map_dom(front);
        assert forall|k: K| #[trigger] assoc_map(pairs).contains_key(k) <==> has_key(
            pairs,
            k,
        ) by {
            if has_key(front, k) {
                let i = choose|i: int| 0 <= i < front.len() && front[i].0 == k;
                assert(pairs[i].0 == k);
            }
            if pairs.last().0 == k {
                assert(pairs[pairs.len() - 1].0 == k);
            }
            if has_key(pairs, k) {
                let i = choose|i: int| 0 <= i < pairs.len() && pairs[i].0 == k;
                if i < front.len() {
                    assert(front[i].0 == k);
                }
            }
        }
    }
}

/// With distinct keys every pair of the sequence is a pair of the map, and the
/// map has as many keys as the sequence has pairs.
pub proof fn lemma_assoc_map_distinct<K, V>(pairs: Seq<(K, V)>)
    requires
        distinct_keys(pairs),
    ensures
        forall|i: int|
            0 <= i < pairs.len() ==> assoc_map(pairs).contains_key(#[trigger] pairs[i].0)
                && assoc_map(pairs)[pairs[i].0] == pairs[i].1,
        assoc_map(pairs).dom().len() == pairs.len(),
    decreases pairs.len(),
{
    if pairs.len() > 0 {
        let front = pairs.drop_last();
        lemma_assoc_map_distinct(front);
        lemma_assoc_map_dom(front);
        assert(!has_key(front, pairs.last().0)) by {
            if has_key(front, pairs.last().0) {
                let i = choose|i: int| 0 <= i < front.len() && front[i].0 == pairs.last().0;
                assert(pairs[i].0 != pairs[pairs.len() - 1].0);
            }
        }
        assert forall|i: int| 0 <= i < pairs.len() implies assoc_map(pairs).contains_key(
            #[trigger] pairs[i].0,
        ) && assoc_map(pairs)[pairs[i].0] == pairs[i].1 by {
            if i < front.len() {
                assert(front[i].0 == pairs[i].0);
                assert(pairs[i].0 != pairs[pairs.len() - 1].0);
            }
        }
    }
}

/// Appending a pair inserts it into the map.
pub proof fn lemma_assoc_map_push<K, V>(pairs: Seq<(K, V)>, k: K, v: V)
    ensures
        assoc_map(pairs.push((k, v))) == assoc_map(pairs).insert(k, v),
{
    assert(pairs.push((k, v)).drop_last() =~= pairs);
}

/// Replacing the value at the one position of a key inserts the new value into the map.
pub proof fn lemma_assoc_map_update<K, V>(pairs: Seq<(K, V)>, i: int, v: V)
    requires
        distinct_keys(pairs),
        0 <= i < pairs.len(),
    ensures
        distinct_keys(pairs.update(i, (pairs[i].0, v))),
        assoc_map(pairs.update(i, (pairs[i].0, v))) == assoc_map(pairs).insert(pairs[i].0, v),
{
    let k = pairs[i].0;
    let next = pairs.update(i, (k, v));
    assert(distinct_keys(next)) by {
        assert forall|a: int, b: int| 0 <= a < b < next.len() implies next[a].0 != next[b].0 by {
            assert(next[a].0 == pairs[a].0);
            assert(next[b].0 == pairs[b].0);
        }
    }
    lemma_assoc_map_dom(pairs);
    lemma_assoc_map_dom(next);
    lemma_assoc_map_distinct(pairs);
    lemma_assoc_map_distinct(next);
    let lhs = assoc_map(next);
    let rhs = assoc_map(pairs).insert(k, v);
    assert forall|key: K| lhs.contains_key(key) <==> rhs.contains_key(key) by {
        if has_key(next, key) {
            let a = choose|a: int| 0 <= a < next.len() && next[a].0 == key;
            assert(pairs[a].0 == key);
        }
        if has_key(pairs, key) {
            let a = choose|a: int| 0 <= a < pairs.len() && pairs[a].0 == key;
            assert(next[a].0 == key);
        }
        if key == k {
            assert(next[i].0 == key);
        }
    }
    assert forall|key: K| lhs.contains_key(key) implies lhs[key] == rhs[key] by {
        let a = choose|a: int| 0 <= a < next.len() && next[a].0 == key;
        assert(next[a].0 == key);
        assert(lhs[next[a].0] == next[a].1);
        if a != i {
            assert(pairs[a].0 == key);
            assert(assoc_map(pairs)[pairs[a].0] == pairs[a].1);
            assert(key != k) by {
                if a < i {
                    assert(pairs[a].0 != pairs[i].0);
                } else {
                    assert(pairs[i].0 != pairs[a].0);
                }
            }
        }
    }
    assert(lhs =~= rhs);
}

} // verus!
