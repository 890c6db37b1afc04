//! The repository cache: which directories were seen to be repositories, and when.
//!
//! An entry may be trusted only while it is valid: it was checked recently
//! enough, and its directory and the `.git` entry below it are still there. The
//! store never keeps an entry that was invalid when it was offered, and pruning
//! removes exactly the entries that have become invalid since.

use crate::assoc::{
    assoc_map, distinct_keys, lemma_assoc_map_distinct, lemma_assoc_map_dom, lemma_assoc_map_push,
};
use crate::error::RkitError;
use crate::slots::{find_slot, prune_slots, put_slot, slot_pairs, Slot};
use crate::snapshot::Snapshot;
use crate::stored::{
    data_pairs, is_persisted_form, load_cache, loaded_entries, CacheData, CacheFile,
};
use crate::text::views;
use vstd::prelude::*;
use vstd::string::StringExecFns;

verus! {

/// The schema version that a persisted cache must carry.
pub const CACHE_VERSION: u32 = 1;

/// Settings of one cache.
#[derive(Debug)]
pub struct CacheConfig {
    /// How long an entry stays valid after it was last checked, in seconds.
    pub ttl_seconds: u64,
    /// The largest number of entries the cache may hold, if there is a limit.
    pub max_entries: Option<usize>,
    /// Where the cache is persisted, if not at the default place.
    pub cache_path: Option<String>,
}

impl Default for CacheConfig {
    /// One day of validity, no limit on the number of entries, the default place.
    fn default() -> (config: Self)
        ensures
            config.ttl_seconds == 86400,
            config.max_entries is None,
            config.cache_path is None,
    {
        CacheConfig { ttl_seconds: 24 * 60 * 60, max_entries: None, cache_path: None }
    }
}

impl Clone for CacheConfig {
    fn clone(&self) -> (copy: Self)
        ensures
            copy == *self,
    {
        CacheConfig {
            ttl_seconds: self.ttl_seconds,
            max_entries: self.max_entries,
            cache_path: match &self.cache_path {
                Some(p) => Some(p.clone()),
                None => None,
            },
        }
    }
}

/// What can go wrong in the cache.
#[derive(Debug)]
pub enum CacheError {
    /// The lock around the cache could not be taken.
    LockError(String),
    /// An entry is older than its time to live.
    EntryExpired(String),
    /// The persisted cache carries a version other than the supported one.
    InvalidVersion(u32),
    /// Reading or writing the cache file failed.
    IoError(String),
    /// The cache file could not be parsed or produced.
    ParseError(String),
    /// The clock could not be read.
    TimeError(String),
    /// The directory of the cache file could not be had.
    DirectoryError(RkitError),
    /// The cache already holds as many entries as it may.
    CacheFull(usize),
    /// The entry offered is not valid.
    InvalidEntryError(String),
}

/// One repository as it was last seen.
#[derive(Debug)]
pub struct CacheEntry {
    /// The repository's directory.
    pub path: String,
    /// The directory's modification time when the entry was made, in seconds since the epoch.
    pub last_modified: u64,
    /// When the entry was last confirmed, in seconds since the epoch.
    pub last_checked: u64,
}

/// A cache entry as a mathematical value.
pub struct EntryView {
    pub path: Seq<char>,
    pub last_modified: u64,
    pub last_checked: u64,
}

impl View for CacheEntry {
    type V = EntryView;

    open spec fn view(&self) -> EntryView {
        EntryView {
            path: self.path@,
            last_modified: self.last_modified,
            last_checked: self.last_checked,
        }
    }
}

impl Clone for CacheEntry {
    fn clone(&self) -> (copy: Self)
        ensures
            copy == *self,
    {
        CacheEntry {
            path: self.path.clone(),
            last_modified: self.last_modified,
            last_checked: self.last_checked,
        }
    }
}

/// An entry is valid when the clock could be read, no more than `ttl` seconds
/// have passed since the entry was last checked, and both its directory and the
/// `.git` entry below it were seen to exist.
pub open spec fn entry_is_valid(entry: EntryView, ttl: u64, world: Snapshot) -> bool {
    &&& world.now is Some
    &&& world.now->0 - entry.last_checked <= ttl
    &&& world.path_exists(entry.path)
    &&& world.git_exists(entry.path)
}

/// The entry that describes `path` as the snapshot shows it: checked now, and
/// modified when the snapshot says, or now where it does not say. An unreadable
/// clock counts as time zero.
pub open spec fn fresh_entry(path: Seq<char>, world: Snapshot) -> EntryView {
    let now = match world.now {
        Some(t) => t,
        None => 0,
    };
    EntryView {
        path,
        last_modified: match world.modified(path) {
            Some(m) => m,
            None => now,
        },
        last_checked: now,
    }
}

/// The message of the error that rejects an invalid entry offered under `path`.
pub open spec fn invalid_entry_message(path: Seq<char>) -> Seq<char> {
    "Invalid cache entry for path: "@ + path
}

/// The persistent cache of repositories, keyed by path.
pub struct Cache {
    slots: Vec<Slot>,
    cache_path: String,
    config: CacheConfig,
}

impl View for Cache {
    type V = Map<Seq<char>, EntryView>;

    /// The entries of the cache, each under its key.
    closed spec fn view(&self) -> Map<Seq<char>, EntryView> {
        assoc_map(slot_pairs(self.slots@))
    }
}

impl Cache {
    #[verifier::type_invariant]
    spec fn keys_are_distinct(&self) -> bool {
        distinct_keys(slot_pairs(self.slots@))
    }

    /// The settings the cache was made with.
    pub closed spec fn settings(&self) -> CacheConfig {
        self.config
    }

    /// The file the cache is persisted in.
    pub closed spec fn location(&self) -> Seq<char> {
        self.cache_path@
    }

    /// A cache with the default settings, persisted at `default_path` and
    /// holding what the file found there yields.
    pub fn new(default_path: String, file: CacheFile) -> (cache: Cache)
        ensures
            cache.settings().ttl_seconds == 86400,
            cache.settings().max_entries is None,
            cache.settings().cache_path is None,
            cache.location() == default_path@,
            cache@ == loaded_entries(file),
    {
        Self::with_config(CacheConfig::default(), default_path, file)
    }

    /// The settings the cache was made with.
    pub fn config(&self) -> (config: &CacheConfig)
        ensures
            *config == self.settings(),
    {
        &self.config
    }

    /// The file the cache is persisted in.
    pub fn cache_path(&self) -> (path: &str)
        ensures
            path@ == self.location(),
    {
        self.cache_path.as_str()
    }

    /// How long an entry stays valid after it was last checked, in seconds.
    pub fn ttl_seconds(&self) -> (ttl: u64)
        ensures
            ttl == self.settings().ttl_seconds,
    {
        self.config.ttl_seconds
    }

    /// The number of entries.
    pub fn len(&self) -> (n: usize)
        ensures
            n == self@.len(),
            self@.dom().finite(),
    {
        proof {
            use_type_invariant(self);
            lemma_assoc_map_distinct(slot_pairs(self.slots@));
            lemma_assoc_map_dom(slot_pairs(self.slots@));
        }
        self.slots.len()
    }

    /// The entry stored under `path`, if there is one. Nothing is checked and
    /// nothing changes.
    pub fn get(&self, path: &str) -> (found: Option<CacheEntry>)
        ensures
            match found {
                Some(entry) => self@.contains_key(path@) && entry@ == self@[path@],
                None => !self@.contains_key(path@),
            },
    {
        let key = path.to_owned();
        proof {
            use_type_invariant(self);
            lemma_assoc_map_distinct(slot_pairs(self.slots@));
            lemma_assoc_map_dom(slot_pairs(self.slots@));
        }
        match find_slot(&self.slots, &key) {
            Some(i) => {
                proof {
                    assert(slot_pairs(self.slots@)[i as int].0 == path@);
                }
                Some(self.slots[i].entry.clone())
            },
            None => None,
        }
    }

    /// Whether `entry` is valid in the world that the snapshot shows.
    pub fn validate_entry(entry: &CacheEntry, ttl_seconds: u64, world: &Snapshot) -> (valid: bool)
        ensures
            valid == entry_is_valid(entry@, ttl_seconds, *world),
    {
        let now = match world.now {
            Some(t) => t,
            None => {
                return false;
            },
        };
        if now > entry.last_checked && now - entry.last_checked > ttl_seconds {
            return false;
        }
        match world.lookup(entry.path.as_str()) {
            Some(state) => state.exists && state.has_git,
            None => false,
        }
    }

    /// The entry that describes `path` as the snapshot shows it.
    pub fn update_entry(path: &str, world: &Snapshot) -> (entry: CacheEntry)
        ensures
            entry@ == fresh_entry(path@, *world),
    {
        let now = match world.now {
            Some(t) => t,
            None => 0,
        };
        let modified = match world.lookup(path) {
            Some(state) => state.modified,
            None => None,
        };
        let last_modified = match modified {
            Some(m) => m,
            None => now,
        };
        CacheEntry { path: path.to_owned(), last_modified, last_checked: now }
    }
}

/// The entries that pruning keeps: those that are valid in the world shown.
pub open spec fn pruned(entries: Map<Seq<char>, EntryView>, ttl: u64, world: Snapshot) -> Map<
    Seq<char>,
    EntryView,
> {
    Map::new(
        |k: Seq<char>| entries.contains_key(k) && entry_is_valid(entries[k], ttl, world),
        |k: Seq<char>| entries[k],
    )
}

/// The test that a path passes when `entries` holds under it an entry that is
/// valid in the world shown.
pub open spec fn holds_valid_entry(
    entries: Map<Seq<char>, EntryView>,
    ttl: u64,
    world: Snapshot,
) -> spec_fn(Seq<char>) -> bool {
    |path: Seq<char>| entries.contains_key(path) && entry_is_valid(entries[path], ttl, world)
}

/// The entries after each of `paths` was described afresh: a path among them
/// carries its fresh entry, every other key keeps what it had.
pub open spec fn refreshed(
    entries: Map<Seq<char>, EntryView>,
    paths: Seq<Seq<char>>,
    world: Snapshot,
) -> Map<Seq<char>, EntryView> {
    Map::new(
        |k: Seq<char>| entries.contains_key(k) || paths.contains(k),
        |k: Seq<char>|
            if paths.contains(k) {
                fresh_entry(k, world)
            } else {
                entries[k]
            },
    )
}

/// Whether a cache of `count` entries with the limit `max_entries` takes no more.
pub open spec fn is_full(count: nat, max_entries: Option<usize>) -> bool {
    max_entries matches Some(max) && count >= max
}

/// Whether an entry offered to a cache with these entries and settings is taken:
/// it is valid in the world shown and the cache is not full.
pub open spec fn insert_accepts(
    entries: Map<Seq<char>, EntryView>,
    config: CacheConfig,
    world: Snapshot,
    entry: EntryView,
) -> bool {
    entry_is_valid(entry, config.ttl_seconds, world) && !is_full(entries.len(), config.max_entries)
}

/// The entries after `entry` was offered under `path`: with the entry where it
/// is taken, unchanged where it is not.
pub open spec fn after_insert(
    entries: Map<Seq<char>, EntryView>,
    config: CacheConfig,
    world: Snapshot,
    path: Seq<char>,
    entry: EntryView,
) -> Map<Seq<char>, EntryView> {
    if insert_accepts(entries, config, world, entry) {
        entries.insert(path, entry)
    } else {
        entries
    }
}

impl Cache {
    /// Stores `entry` under `path`.
    ///
    /// An entry that is not valid in the world shown is rejected, and so is any
    /// entry once the cache holds as many entries as it may; a rejected entry
    /// leaves the cache as it was. Validity is tested first.
    pub fn insert(&mut self, path: String, entry: CacheEntry, world: &Snapshot) -> (result: Result<
        (),
        CacheError,
    >)
        ensures
            final(self).settings() == old(self).settings(),
            final(self).location() == old(self).location(),
            old(self)@.dom().finite(),
            final(self)@ == after_insert(
                old(self)@,
                old(self).settings(),
                *world,
                path@,
                entry@,
            ),
            result is Ok <==> insert_accepts(old(self)@, old(self).settings(), *world, entry@),
            !entry_is_valid(entry@, old(self).settings().ttl_seconds, *world) ==> {
                &&& result matches Err(CacheError::InvalidEntryError(msg))
                &&& msg@ == invalid_entry_message(path@)
            },
            entry_is_valid(entry@, old(self).settings().ttl_seconds, *world) && is_full(
                old(self)@.len(),
                old(self).settings().max_entries,
            ) ==> {
                &&& result matches Err(CacheError::CacheFull(max))
                &&& Some(max) == old(self).settings().max_entries
            },
    {
        proof {
            use_type_invariant(&*self);
            lemma_assoc_map_distinct(slot_pairs(self.slots@));
            lemma_assoc_map_dom(slot_pairs(self.slots@));
        }
        if !Self::validate_entry(&entry, self.config.ttl_seconds, world) {
            let message = "Invalid cache entry for path: ".to_owned().concat(path.as_str());
            return Err(CacheError::InvalidEntryError(message));
        }
        if let Some(max_entries) = self.config.max_entries {
            if self.slots.len() >= max_entries {
                return Err(CacheError::CacheFull(max_entries));
            }
        }
        let mut slots = self.take_slots();
        put_slot(&mut slots, path, entry);
        self.slots = slots;
        Ok(())
    }

    /// Removes every entry that is not valid in the world shown and leaves the
    /// others as they were.
    pub fn validate_and_update(&mut self, world: &Snapshot)
        ensures
            final(self).settings() == old(self).settings(),
            final(self).location() == old(self).location(),
            final(self)@ == pruned(old(self)@, old(self).settings().ttl_seconds, *world),
    {
        let ttl = self.config.ttl_seconds;
        let mut slots = self.take_slots();
        prune_slots(&mut slots, ttl, world);
        self.slots = slots;
    }

    /// The paths among `paths`, in their order, under which the cache holds an
    /// entry that is valid in the world shown. Nothing changes.
    pub fn validate_entries(&self, paths: &Vec<String>, world: &Snapshot) -> (valid: Vec<String>)
        ensures
            views(valid@) == views(paths@).filter(
                holds_valid_entry(self@, self.settings().ttl_seconds, *world),
            ),
    {
        let ghost keep = holds_valid_entry(self@, self.settings().ttl_seconds, *world);
        let mut valid: Vec<String> = Vec::new();
        let mut i: usize = 0;
        proof {
            reveal(Seq::filter);
            assert(views(paths@).take(0) =~= Seq::<Seq<char>>::empty());
            assert(views(valid@) =~= Seq::<Seq<char>>::empty());
        }
        while i < paths.len()
            invariant
                i <= paths@.len(),
                keep == holds_valid_entry(self@, self.settings().ttl_seconds, *world),
                views(valid@) == views(paths@).take(i as int).filter(keep),
            decreases paths@.len() - i,
        {
            let ghost done = views(paths@).take(i as int);
            let ghost kept = views(valid@);
            let holds = match self.get(paths[i].as_str()) {
                Some(entry) => Self::validate_entry(&entry, self.config.ttl_seconds, world),
                None => false,
            };
            if holds {
                valid.push(paths[i].clone());
            }
            proof {
                let path = paths@[i as int]@;
                assert(holds == keep(path));
                assert(views(paths@).take(i + 1) =~= done.push(path));
                done.lemma_filter_push(path, keep);
                if holds {
                    assert(views(valid@) =~= kept.push(path));
                } else {
                    assert(views(valid@) =~= kept);
                }
            }
            i += 1;
        }
        proof {
            assert(views(paths@).take(i as int) =~= views(paths@));
        }
        valid
    }

    /// Describes `path` as the snapshot shows it and stores the entry under it,
    /// as `insert` would.
    pub fn update_and_save(&mut self, path: &str, world: &Snapshot) -> (result: Result<
        (),
        CacheError,
    >)
        ensures
            final(self).settings() == old(self).settings(),
            final(self).location() == old(self).location(),
            final(self)@ == after_insert(
                old(self)@,
                old(self).settings(),
                *world,
                path@,
                fresh_entry(path@, *world),
            ),
            result is Ok <==> insert_accepts(
                old(self)@,
                old(self).settings(),
                *world,
                fresh_entry(path@, *world),
            ),
            !entry_is_valid(
                fresh_entry(path@, *world),
                old(self).settings().ttl_seconds,
                *world,
            ) ==> {
                &&& result matches Err(CacheError::InvalidEntryError(msg))
                &&& msg@ == invalid_entry_message(path@)
            },
            entry_is_valid(fresh_entry(path@, *world), old(self).settings().ttl_seconds, *world)
                && is_full(old(self)@.len(), old(self).settings().max_entries) ==> {
                &&& result matches Err(CacheError::CacheFull(max))
                &&& Some(max) == old(self).settings().max_entries
            },
    {
        let entry = Self::update_entry(path, world);
        self.insert(path.to_owned(), entry, world)
    }

    /// Describes each of `paths` as the snapshot shows it and stores the entries
    /// under their paths, all of them and whatever they say: nothing is tested
    /// and no limit applies.
    pub fn update_and_save_many(&mut self, paths: &Vec<String>, world: &Snapshot)
        ensures
            final(self).settings() == old(self).settings(),
            final(self).location() == old(self).location(),
            final(self)@ == refreshed(old(self)@, views(paths@), *world),
    {
        let ghost before = self@;
        let mut slots = self.take_slots();
        let mut i: usize = 0;
        proof {
            assert(assoc_map(slot_pairs(slots@)) =~= refreshed(
                before,
                views(paths@).take(0),
                *world,
            ));
        }
        while i < paths.len()
            invariant
                i <= paths@.len(),
                distinct_keys(slot_pairs(slots@)),
                assoc_map(slot_pairs(slots@)) == refreshed(
                    before,
                    views(paths@).take(i as int),
                    *world,
                ),
            decreases paths@.len() - i,
        {
            let entry = Self::update_entry(paths[i].as_str(), world);
            put_slot(&mut slots, paths[i].clone(), entry);
            proof {
                let done = views(paths@).take(i as int);
                let path = paths@[i as int]@;
                let next = views(paths@).take(i + 1);
                assert(next =~= done.push(path));
                assert forall|k: Seq<char>| next.contains(k) <==> done.contains(k) || k
                    == path by {
                    if done.contains(k) {
                        let j = choose|j: int| 0 <= j < done.len() && done[j] == k;
                        assert(next[j] == k);
                    }
                    if k == path {
                        assert(next[i as int] == k);
                    }
                }
                assert(refreshed(before, done, *world).insert(path, fresh_entry(path, *world))
                    =~= refreshed(before, next, *world));
            }
            i += 1;
        }
        proof {
            assert(views(paths@).take(i as int) =~= views(paths@));
        }
        self.slots = slots;
    }

    /// Moves the slots out, leaving the cache empty until they are put back.
    fn take_slots(&mut self) -> (slots: Vec<Slot>)
        ensures
            slots@ == old(self).slots@,
            distinct_keys(slot_pairs(slots@)),
            final(self).slots@.len() == 0,
            final(self).config == old(self).config,
            final(self).cache_path == old(self).cache_path,
    {
        proof {
            use_type_invariant(&*self);
        }
        let mut slots: Vec<Slot> = Vec::new();
        std::mem::swap(&mut self.slots, &mut slots);
        slots
    }
}

impl Cache {
    /// A cache with the given settings, persisted where the settings say or else
    /// at `default_path`, and holding what the file found there yields. A file
    /// that is unreadable, malformed or of another version yields an empty
    /// cache; it is never an error.
    pub fn with_config(config: CacheConfig, default_path: String, file: CacheFile) -> (cache:
        Cache)
        ensures
            cache.settings() == config,
            cache.location() == match config.cache_path {
                Some(path) => path@,
                None => default_path@,
            },
            cache@ == loaded_entries(file),
    {
        let cache_path = match &config.cache_path {
            Some(path) => path.clone(),
            None => default_path,
        };
        let mut slots: Vec<Slot> = Vec::new();
        match load_cache(file) {
            Ok(entries) => {
                let mut i: usize = 0;
                proof {
                    assert(data_pairs(entries@).take(0) =~= Seq::empty());
                }
                while i < entries.len()
                    invariant
                        i <= entries@.len(),
                        distinct_keys(slot_pairs(slots@)),
                        assoc_map(slot_pairs(slots@)) == assoc_map(
                            data_pairs(entries@).take(i as int),
                        ),
                    decreases entries@.len() - i,
                {
                    put_slot(&mut slots, entries[i].0.clone(), entries[i].1.clone());
                    proof {
                        let done = data_pairs(entries@).take(i as int);
                        let pair = data_pairs(entries@)[i as int];
                        assert(data_pairs(entries@).take(i + 1) =~= done.push(pair));
                        lemma_assoc_map_push(done, pair.0, pair.1);
                    }
                    i += 1;
                }
                proof {
                    assert(data_pairs(entries@).take(i as int) =~= data_pairs(entries@));
                }
            },
            Err(_) => {},
        }
        Cache { slots, cache_path, config }
    }

    /// The persisted form of the cache as it stands: every entry, not a difference.
    pub fn to_data(&self) -> (data: CacheData)
        ensures
            is_persisted_form(data, self@),
            distinct_keys(data_pairs(data.entries@)),
            data.entries@.len() == self@.len(),
    {
        proof {
            use_type_invariant(self);
            lemma_assoc_map_distinct(slot_pairs(self.slots@));
        }
        let mut entries: Vec<(String, CacheEntry)> = Vec::new();
        let mut i: usize = 0;
        while i < self.slots.len()
            invariant
                i <= self.slots@.len(),
                entries@.len() == i,
                data_pairs(entries@) == slot_pairs(self.slots@).take(i as int),
            decreases self.slots@.len() - i,
        {
            let ghost before = entries@;
            entries.push((self.slots[i].key.clone(), self.slots[i].entry.clone()));
            proof {
                let target = slot_pairs(self.slots@).take(i + 1);
                assert forall|j: int| 0 <= j < target.len() implies data_pairs(entries@)[j]
                    == target[j] by {
                    if j < i {
                        assert(entries@[j] == before[j]);
                        assert(data_pairs(before)[j] == slot_pairs(self.slots@).take(i as int)[j]);
                    }
                }
                assert(data_pairs(entries@) =~= target);
            }
            i += 1;
        }
        proof {
            assert(slot_pairs(self.slots@).take(i as int) =~= slot_pairs(self.slots@));
        }
        CacheData { entries, version: CACHE_VERSION }
    }
}

} // verus!
