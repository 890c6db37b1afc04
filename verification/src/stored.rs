//! The cache as it lies on disk, and what a cache starts with.

use crate::assoc::assoc_map;
use crate::cache::{CacheEntry, CacheError, EntryView, CACHE_VERSION};
use vstd::prelude::*;

verus! {

/// The persisted form of a cache: the schema version and every entry with its key.
#[derive(Debug)]
pub struct CacheData {
    /// Each key with its entry; of two pairs with one key the later counts.
    pub entries: Vec<(String, CacheEntry)>,
    /// The schema version the data was written under.
    pub version: u32,
}

/// What was found where the cache is persisted.
#[derive(Debug)]
pub enum CacheFile {
    /// There is no file.
    Missing,
    /// The file could not be read; the reason is given.
    Unreadable(String),
    /// The file's text is no cache; the reason is given.
    Malformed(String),
    /// The file's text was a cache.
    Parsed(CacheData),
}

/// Persisted pairs as pairs of mathematical values.
pub open spec fn data_pairs(entries: Seq<(String, CacheEntry)>) -> Seq<(Seq<char>, EntryView)> {
    Seq::new(entries.len(), |i: int| (entries[i].0@, entries[i].1@))
}

/// `data` is a persisted form of `entries`: it carries the supported version
/// and stands for exactly these entries.
pub open spec fn is_persisted_form(data: CacheData, entries: Map<Seq<char>, EntryView>) -> bool {
    &&& data.version == CACHE_VERSION
    &&& assoc_map(data_pairs(data.entries@)) == entries
}

/// The entries that a cache starts with, given what was found on disk: those of
/// a parsed file of the supported version, and none in every other case.
pub open spec fn loaded_entries(file: CacheFile) -> Map<Seq<char>, EntryView> {
    match file {
        CacheFile::Parsed(data) => if data.version == CACHE_VERSION {
            assoc_map(data_pairs(data.entries@))
        } else {
            Map::empty()
        },
        _ => Map::empty(),
    }
}

/// Decides what the file found on disk yields: its entries, or the reason why
/// it yields none. A missing file yields no entries and is no error.
pub fn load_cache(file: CacheFile) -> (result: Result<Vec<(String, CacheEntry)>, CacheError>)
    ensures
        match file {
            CacheFile::Missing => result matches Ok(entries) && entries@.len() == 0,
            CacheFile::Unreadable(reason) => result matches Err(CacheError::IoError(msg)) && msg
                == reason,
            CacheFile::Malformed(reason) => result matches Err(CacheError::ParseError(msg))
                && msg == reason,
            CacheFile::Parsed(data) => if data.version == CACHE_VERSION {
                result matches Ok(entries) && entries == data.entries
            } else {
                result matches Err(CacheError::InvalidVersion(version)) && version == data.version
            },
        },
        result matches Ok(entries) ==> assoc_map(data_pairs(entries@)) == loaded_entries(file),
{
    match file {
        CacheFile::Missing => {
            let entries: Vec<(String, CacheEntry)> = Vec::new();
            assert(data_pairs(entries@) =~= Seq::empty());
            Ok(entries)
        },
        CacheFile::Unreadable(reason) => Err(CacheError::IoError(reason)),
        CacheFile::Malformed(reason) => Err(CacheError::ParseError(reason)),
        CacheFile::Parsed(data) => {
            if data.version == CACHE_VERSION {
                Ok(data.entries)
            } else {
                Err(CacheError::InvalidVersion(data.version))
            }
        },
    }
}

} // verus!
