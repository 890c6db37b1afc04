//! What holds of the cache's operations taken together.

use crate::assoc::{assoc_map, distinct_keys, lemma_assoc_map_distinct, lemma_assoc_map_dom};
use crate::cache::{
    after_insert, entry_is_valid, insert_accepts, is_full, pruned, CacheConfig, EntryView,
    CACHE_VERSION,
};
use crate::stored::{is_persisted_form, loaded_entries, CacheData, CacheFile};
use crate::snapshot::Snapshot;
use vstd::prelude::*;

verus! {

/// The entries after each pair of `items` was offered in turn.
pub open spec fn after_inserts(
    entries: Map<Seq<char>, EntryView>,
    config: CacheConfig,
    world: Snapshot,
    items: Seq<(Seq<char>, EntryView)>,
) -> Map<Seq<char>, EntryView>
    decreases items.len(),
{
    if items.len() == 0 {
        entries
    } else {
        after_insert(
            after_inserts(entries, config, world, items.drop_last()),
            config,
            world,
            items.last().0,
            items.last().1,
        )
    }
}

/// An entry is valid exactly when the clock was read, the entry's age does not
/// exceed the time to live, and both its directory and the `.git` entry below
/// it were seen.
pub proof fn lemma_validity(entry: EntryView, ttl: u64, world: Snapshot)
    ensures
        entry_is_valid(entry, ttl, world) <==> (world.now matches Some(now) && now
            - entry.last_checked <= ttl && world.path_exists(entry.path) && world.git_exists(
            entry.path,
        )),
{
}

/// Reloading what was persisted gives back the entries that were persisted.
pub proof fn lemma_reload_restores(data: CacheData, entries: Map<Seq<char>, EntryView>)
    requires
        is_persisted_form(data, entries),
    ensures
        loaded_entries(CacheFile::Parsed(data)) == entries,
{
}

/// A persisted cache of any other version loads as an empty cache.
pub proof fn lemma_other_version_loads_empty(data: CacheData)
    requires
        data.version != CACHE_VERSION,
    ensures
        loaded_entries(CacheFile::Parsed(data)) == Map::<Seq<char>, EntryView>::empty(),
{
}

/// Offering an entry never takes a cache beyond its limit.
pub proof fn lemma_insert_respects_limit(
    entries: Map<Seq<char>, EntryView>,
    config: CacheConfig,
    world: Snapshot,
    path: Seq<char>,
    entry: EntryView,
)
    requires
        entries.dom().finite(),
        config.max_entries matches Some(max) && entries.len() <= max,
    ensures
        after_insert(entries, config, world, path, entry).dom().finite(),
        after_insert(entries, config, world, path, entry).len() <= config.max_entries->0,
{
}

/// A full cache takes nothing: whatever is offered, the entries stay as they are.
pub proof fn lemma_full_cache_rejects(
    entries: Map<Seq<char>, EntryView>,
    config: CacheConfig,
    world: Snapshot,
    path: Seq<char>,
    entry: EntryView,
)
    requires
        is_full(entries.len(), config.max_entries),
    ensures
        !insert_accepts(entries, config, world, entry),
        after_insert(entries, config, world, path, entry) == entries,
{
}

/// With a limit of `max` entries, offering `max` valid entries under distinct
/// paths to an empty cache stores them all, and the cache then has `max`
/// entries and takes no further one.
pub proof fn lemma_limit_reached_after_distinct_inserts(
    config: CacheConfig,
    world: Snapshot,
    items: Seq<(Seq<char>, EntryView)>,
)
    requires
        config.max_entries matches Some(max) && items.len() <= max,
        distinct_keys(items),
        forall|i: int|
            0 <= i < items.len() ==> entry_is_valid(
                #[trigger] items[i].1,
                config.ttl_seconds,
                world,
            ),
    ensures
        after_inserts(Map::empty(), config, world, items) == assoc_map(items),
        after_inserts(Map::empty(), config, world, items).dom().finite(),
        after_inserts(Map::empty(), config, world, items).len() == items.len(),
        items.len() == config.max_entries->0 ==> forall|path: Seq<char>, entry: EntryView|
            !insert_accepts(after_inserts(Map::empty(), config, world, items), config, world, entry)
                && #[trigger] after_insert(
                after_inserts(Map::empty(), config, world, items),
                config,
                world,
                path,
                entry,
            ) == after_inserts(Map::empty(), config, world, items),
    decreases items.len(),
{
    lemma_assoc_map_dom(items);
    lemma_assoc_map_distinct(items);
    if items.len() > 0 {
        let front = items.drop_last();
        assert(distinct_keys(front)) by {
            assert forall|i: int, j: int| 0 <= i < j < front.len() implies front[i].0
                != front[j].0 by {
                assert(items[i].0 != items[j].0);
            }
        }
        assert forall|i: int| 0 <= i < front.len() implies entry_is_valid(
            #[trigger] front[i].1,
            config.ttl_seconds,
            world,
        ) by {
            assert(front[i].1 == items[i].1);
        }
        lemma_limit_reached_after_distinct_inserts(config, world, front);
        assert(entry_is_valid(items[items.len() - 1].1, config.ttl_seconds, world));
    }
}

/// Pruning keeps exactly the valid entries and keeps each as it was.
pub proof fn lemma_prune_keeps_exactly_the_valid(
    entries: Map<Seq<char>, EntryView>,
    ttl: u64,
    world: Snapshot,
)
    ensures
        forall|k: Seq<char>| #[trigger]
            pruned(entries, ttl, world).contains_key(k) <==> entries.contains_key(k)
                && entry_is_valid(entries[k], ttl, world),
        forall|k: Seq<char>| #[trigger]
            pruned(entries, ttl, world).contains_key(k) ==> pruned(entries, ttl, world)[k]
                == entries[k],
{
}

/// Pruning twice in one world is pruning once.
pub proof fn lemma_prune_is_idempotent(
    entries: Map<Seq<char>, EntryView>,
    ttl: u64,
    world: Snapshot,
)
    ensures
        pruned(pruned(entries, ttl, world), ttl, world) == pruned(entries, ttl, world),
{
    assert(pruned(pruned(entries, ttl, world), ttl, world) =~= pruned(entries, ttl, world));
}

/// An entry whose directory shows no `.git` entry is never taken.
pub proof fn lemma_missing_git_is_rejected(
    entries: Map<Seq<char>, EntryView>,
    config: CacheConfig,
    world: Snapshot,
    path: Seq<char>,
    entry: EntryView,
)
    requires
        !world.git_exists(entry.path),
    ensures
        !insert_accepts(entries, config, world, entry),
        after_insert(entries, config, world, path, entry) == entries,
{
}

} // verus!
