//! The slots that hold the cache's entries: one for each key.

use crate::assoc::{
    assoc_map, distinct_keys, has_key, lemma_assoc_map_distinct, lemma_assoc_map_dom,
    lemma_assoc_map_push, lemma_assoc_map_update,
};
use crate::cache::{entry_is_valid, pruned, Cache, CacheEntry, EntryView};
use crate::snapshot::Snapshot;
use vstd::prelude::*;

verus! {

/// One key of the cache with the entry stored under it.
pub(crate) struct Slot {
    pub(crate) key: String,
    pub(crate) entry: CacheEntry,
}

/// The slots as a sequence of pairs of mathematical values.
pub(crate) open spec fn slot_pairs(slots: Seq<Slot>) -> Seq<(Seq<char>, EntryView)> {
    slots.map_values(|s: Slot| (s.key@, s.entry@))
}

/// Finds the slot that holds `key`.
pub(crate) fn find_slot(slots: &Vec<Slot>, key: &String) -> (found: Option<usize>)
    ensures
        match found {
            Some(i) => i < slots@.len() && slots@[i as int].key@ == key@,
            None => !has_key(slot_pairs(slots@), key@),
        },
{
    let mut i: usize = 0;
    while i < slots.len()
        invariant
            i <= slots@.len(),
            forall|j: int| 0 <= j < i ==> slots@[j].key@ != key@,
        decreases slots@.len() - i,
    {
        if slots[i].key == *key {
            return Some(i);
        }
        i += 1;
    }
    proof {
        let pairs = slot_pairs(slots@);
        if has_key(pairs, key@) {
            let j = choose|j: int| 0 <= j < pairs.len() && pairs[j].0 == key@;
            assert(slots@[j].key@ == key@);
        }
    }
    None
}

/// Stores `entry` under `key`, in place of what was stored there before.
pub(crate) fn put_slot(slots: &mut Vec<Slot>, key: String, entry: CacheEntry)
    requires
        distinct_keys(slot_pairs(old(slots)@)),
    ensures
        distinct_keys(slot_pairs(final(slots)@)),
        assoc_map(slot_pairs(final(slots)@)) == assoc_map(slot_pairs(old(slots)@)).insert(
            key@,
            entry@,
        ),
{
    let ghost before = slot_pairs(slots@);
    match find_slot(slots, &key) {
        Some(i) => {
            let ghost k = key@;
            let ghost e = entry@;
            slots.set(i, Slot { key, entry });
            proof {
                assert(slot_pairs(slots@) =~= before.update(i as int, (before[i as int].0, e)));
                lemma_assoc_map_update(before, i as int, e);
            }
        },
        None => {
            let ghost k = key@;
            let ghost e = entry@;
            slots.push(Slot { key, entry });
            proof {
                let after = slot_pairs(slots@);
                assert(after =~= before.push((k, e)));
                lemma_assoc_map_push(before, k, e);
                assert forall|a: int, b: int| 0 <= a < b < after.len() implies after[a].0
                    != after[b].0 by {
                    if b == before.len() {
                        assert(before[a].0 != k);
                    }
                }
            }
        },
    }
}

/// `item` stands at some position of `pairs`.
spec fn occurs(pairs: Seq<(Seq<char>, EntryView)>, item: (Seq<char>, EntryView)) -> bool {
    exists|j: int| 0 <= j < pairs.len() && pairs[j] == item
}

/// Removes, in one pass and in place, every slot whose entry is not valid.
pub(crate) fn prune_slots(slots: &mut Vec<Slot>, ttl: u64, world: &Snapshot)
    requires
        distinct_keys(slot_pairs(old(slots)@)),
    ensures
        distinct_keys(slot_pairs(final(slots)@)),
        assoc_map(slot_pairs(final(slots)@)) == pruned(
            assoc_map(slot_pairs(old(slots)@)),
            ttl,
            *world,
        ),
{
    let ghost before = slot_pairs(slots@);
    let mut i: usize = 0;
    while i < slots.len()
        invariant
            i <= slots@.len(),
            distinct_keys(before),
            distinct_keys(slot_pairs(slots@)),
            forall|j: int|
                0 <= j < i ==> entry_is_valid(#[trigger] slot_pairs(slots@)[j].1, ttl, *world),
            forall|j: int|
                0 <= j < slots@.len() ==> occurs(before, #[trigger] slot_pairs(slots@)[j]),
            forall|b: int|
                0 <= b < before.len() && entry_is_valid(before[b].1, ttl, *world) ==> occurs(
                    slot_pairs(slots@),
                    #[trigger] before[b],
                ),
        decreases slots@.len() - i,
    {
        if Cache::validate_entry(&slots[i].entry, ttl, world) {
            i += 1;
        } else {
            let ghost cur = slot_pairs(slots@);
            slots.swap_remove(i);
            proof {
                let next = slot_pairs(slots@);
                let last = cur.len() - 1;
                assert(next =~= cur.update(i as int, cur.last()).drop_last());
                assert forall|j: int| 0 <= j < next.len() implies occurs(
                    before,
                    #[trigger] next[j],
                ) by {
                    if j == i {
                        assert(occurs(before, cur[last]));
                    } else {
                        assert(occurs(before, cur[j]));
                    }
                }
                assert forall|a: int, b: int| 0 <= a < b < next.len() implies next[a].0
                    != next[b].0 by {
                    let ca = if a == i { last } else { a };
                    let cb = if b == i { last } else { b };
                    assert(next[a] == cur[ca] && next[b] == cur[cb]);
                    if ca < cb {
                        assert(cur[ca].0 != cur[cb].0);
                    } else {
                        assert(cur[cb].0 != cur[ca].0);
                    }
                }
                assert forall|j: int| 0 <= j < i implies entry_is_valid(
                    #[trigger] next[j].1,
                    ttl,
                    *world,
                ) by {
                    assert(next[j] == cur[j]);
                }
                assert forall|b: int|
                    0 <= b < before.len() && entry_is_valid(
                        before[b].1,
                        ttl,
                        *world,
                    ) implies occurs(next, #[trigger] before[b]) by {
                    assert(occurs(cur, before[b]));
                    let j = choose|j: int| 0 <= j < cur.len() && cur[j] == before[b];
                    assert(!entry_is_valid(cur[i as int].1, ttl, *world));
                    assert(j != i);
                    if j == last {
                        assert(next[i as int] == before[b]);
                    } else {
                        assert(next[j] == before[b]);
                    }
                }
            }
        }
    }
    proof {
        let fin = slot_pairs(slots@);
        lemma_assoc_map_dom(fin);
        lemma_assoc_map_dom(before);
        lemma_assoc_map_distinct(fin);
        lemma_assoc_map_distinct(before);
        let lhs = assoc_map(fin);
        let rhs = pruned(assoc_map(before), ttl, *world);
        assert forall|k: Seq<char>| lhs.contains_key(k) implies rhs.contains_key(k) && lhs[k]
            == rhs[k] by {
            let j = choose|j: int| 0 <= j < fin.len() && fin[j].0 == k;
            assert(lhs[fin[j].0] == fin[j].1);
            assert(entry_is_valid(fin[j].1, ttl, *world));
            assert(occurs(before, fin[j]));
            let b = choose|b: int| 0 <= b < before.len() && before[b] == fin[j];
            assert(assoc_map(before)[before[b].0] == before[b].1);
        }
        assert forall|k: Seq<char>| rhs.contains_key(k) implies lhs.contains_key(k) by {
            let b = choose|b: int| 0 <= b < before.len() && before[b].0 == k;
            assert(assoc_map(before)[before[b].0] == before[b].1);
            assert(occurs(fin, before[b]));
            let j = choose|j: int| 0 <= j < fin.len() && fin[j] == before[b];
            assert(fin[j].0 == k);
        }
        assert(lhs =~= rhs);
    }
}

} // verus!
