use rkit::cache::{Cache, CacheConfig, CacheEntry, CacheError};
use rkit::stored::{load_cache, CacheData, CacheFile};
use rkit::snapshot::Snapshot;

fn world_with(now: u64, repos: &[&str]) -> Snapshot {
    let mut world = Snapshot::new(Some(now));
    for repo in repos {
        world.observe(repo, true, true, Some(now - 10));
    }
    world
}

fn entry(path: &str, checked: u64) -> CacheEntry {
    CacheEntry { path: path.to_string(), last_modified: checked, last_checked: checked }
}

fn cache_with_limit(ttl: u64, max: Option<usize>) -> Cache {
    let config = CacheConfig { ttl_seconds: ttl, max_entries: max, cache_path: None };
    Cache::with_config(config, "cache.json".to_string(), CacheFile::Missing)
}

fn empty_cache() -> Cache {
    Cache::new("cache.json".to_string(), CacheFile::Missing)
}

fn sorted_keys(cache: &Cache) -> Vec<String> {
    let mut keys: Vec<String> = cache.to_data().entries.into_iter().map(|(k, _)| k).collect();
    keys.sort();
    keys
}

#[test]
fn default_config_is_one_day_without_limit() {
    let config = CacheConfig::default();
    assert_eq!(config.ttl_seconds, 86_400);
    assert_eq!(config.max_entries, None);
    assert_eq!(config.cache_path, None);
}

#[test]
fn new_cache_has_default_settings_and_what_the_file_holds() {
    let cache = Cache::new("/c/rkit/cache.json".to_string(), CacheFile::Missing);
    assert_eq!(cache.len(), 0);
    assert_eq!(cache.ttl_seconds(), 86_400);
    assert_eq!(cache.config().max_entries, None);
    assert_eq!(cache.cache_path(), "/c/rkit/cache.json");
    let data = CacheData { entries: vec![("/w/a".to_string(), entry("/w/a", 7))], version: 1 };
    let loaded = Cache::new("/c/rkit/cache.json".to_string(), CacheFile::Parsed(data));
    assert_eq!(loaded.len(), 1);
    assert_eq!(loaded.get("/w/a").unwrap().last_checked, 7);
}

#[test]
fn entry_is_valid_up_to_the_ttl_and_not_beyond() {
    let world = world_with(1_000, &["/w/a"]);
    assert!(Cache::validate_entry(&entry("/w/a", 900), 100, &world));
    assert!(!Cache::validate_entry(&entry("/w/a", 899), 100, &world));
    assert!(Cache::validate_entry(&entry("/w/a", 1_000), 0, &world));
}

#[test]
fn entry_checked_in_the_future_counts_as_fresh() {
    let world = world_with(1_000, &["/w/a"]);
    assert!(Cache::validate_entry(&entry("/w/a", 5_000), 0, &world));
}

#[test]
fn entry_needs_its_directory_and_its_git_dir() {
    let mut world = Snapshot::new(Some(1_000));
    world.observe("/w/gone", false, false, None);
    world.observe("/w/plain", true, false, Some(1));
    world.observe("/w/repo", true, true, Some(1));
    assert!(!Cache::validate_entry(&entry("/w/gone", 1_000), 100, &world));
    assert!(!Cache::validate_entry(&entry("/w/plain", 1_000), 100, &world));
    assert!(Cache::validate_entry(&entry("/w/repo", 1_000), 100, &world));
    assert!(!Cache::validate_entry(&entry("/w/unseen", 1_000), 100, &world));
}

#[test]
fn entry_is_invalid_without_a_clock() {
    let mut world = Snapshot::new(None);
    world.observe("/w/repo", true, true, Some(1));
    assert!(!Cache::validate_entry(&entry("/w/repo", 0), u64::MAX, &world));
}

#[test]
fn first_record_of_a_path_counts() {
    let mut world = Snapshot::new(Some(10));
    world.observe("/w/a", true, true, Some(1));
    world.observe("/w/a", false, false, None);
    assert!(world.lookup("/w/a").unwrap().exists);
    assert!(world.lookup("/w/b").is_none());
}

#[test]
fn update_entry_stamps_now_and_the_modification_time() {
    let mut world = Snapshot::new(Some(1_000));
    world.observe("/w/a", true, true, Some(777));
    world.observe("/w/b", true, true, None);
    let a = Cache::update_entry("/w/a", &world);
    assert_eq!((a.path.as_str(), a.last_modified, a.last_checked), ("/w/a", 777, 1_000));
    let b = Cache::update_entry("/w/b", &world);
    assert_eq!((b.last_modified, b.last_checked), (1_000, 1_000));
    let c = Cache::update_entry("/w/c", &Snapshot::new(None));
    assert_eq!((c.last_modified, c.last_checked), (0, 0));
}

#[test]
fn insert_then_get_returns_the_entry() {
    let world = world_with(1_000, &["/w/a"]);
    let mut cache = empty_cache();
    assert!(cache.insert("/w/a".to_string(), entry("/w/a", 900), &world).is_ok());
    let found = cache.get("/w/a").unwrap();
    assert_eq!(found.path, "/w/a");
    assert_eq!(found.last_checked, 900);
    assert_eq!(cache.len(), 1);
    assert!(cache.get("/w/b").is_none());
}

#[test]
fn insert_again_replaces_the_entry() {
    let world = world_with(1_000, &["/w/a"]);
    let mut cache = empty_cache();
    cache.insert("/w/a".to_string(), entry("/w/a", 900), &world).unwrap();
    cache.insert("/w/a".to_string(), entry("/w/a", 950), &world).unwrap();
    assert_eq!(cache.len(), 1);
    assert_eq!(cache.get("/w/a").unwrap().last_checked, 950);
}

#[test]
fn insert_without_git_dir_is_rejected() {
    let mut world = Snapshot::new(Some(1_000));
    world.observe("/w/a", true, false, None);
    world.observe("/w/b", true, true, None);
    let mut cache = empty_cache();
    cache.insert("/w/b".to_string(), entry("/w/b", 1_000), &world).unwrap();
    let res = cache.insert("/w/a".to_string(), entry("/w/a", 1_000), &world);
    match res {
        Err(CacheError::InvalidEntryError(msg)) => {
            assert_eq!(msg, "Invalid cache entry for path: /w/a")
        }
        other => panic!("unexpected: {:?}", other),
    }
    assert_eq!(sorted_keys(&cache), vec!["/w/b".to_string()]);
    assert!(cache.get("/w/a").is_none());
}

#[test]
fn insert_beyond_capacity_fails() {
    let world = world_with(1_000, &["/w/a", "/w/b", "/w/c"]);
    let mut cache = cache_with_limit(100, Some(2));
    assert!(cache.insert("/w/a".to_string(), entry("/w/a", 1_000), &world).is_ok());
    assert!(cache.insert("/w/b".to_string(), entry("/w/b", 1_000), &world).is_ok());
    let res = cache.insert("/w/c".to_string(), entry("/w/c", 1_000), &world);
    assert!(matches!(res, Err(CacheError::CacheFull(2))));
    assert_eq!(cache.len(), 2);
    assert_eq!(cache.to_data().entries.len(), 2);
    assert!(cache.get("/w/c").is_none());
}

#[test]
fn full_cache_rejects_a_known_path_too() {
    let world = world_with(1_000, &["/w/a"]);
    let mut cache = cache_with_limit(100, Some(1));
    cache.insert("/w/a".to_string(), entry("/w/a", 990), &world).unwrap();
    let res = cache.insert("/w/a".to_string(), entry("/w/a", 1_000), &world);
    assert!(matches!(res, Err(CacheError::CacheFull(1))));
    assert_eq!(cache.get("/w/a").unwrap().last_checked, 990);
}

#[test]
fn invalid_entry_is_reported_before_a_full_cache() {
    let world = world_with(1_000, &["/w/a"]);
    let mut cache = cache_with_limit(100, Some(0));
    let res = cache.insert("/w/x".to_string(), entry("/w/x", 1_000), &world);
    assert!(matches!(res, Err(CacheError::InvalidEntryError(_))));
    let res = cache.insert("/w/a".to_string(), entry("/w/a", 1_000), &world);
    assert!(matches!(res, Err(CacheError::CacheFull(0))));
}

#[test]
fn pruning_removes_exactly_the_invalid_entries() {
    let world = world_with(1_000, &["/w/a", "/w/b", "/w/c"]);
    let mut cache = cache_with_limit(100, None);
    cache.insert("/w/a".to_string(), entry("/w/a", 1_000), &world).unwrap();
    cache.insert("/w/b".to_string(), entry("/w/b", 950), &world).unwrap();
    cache.insert("/w/c".to_string(), entry("/w/c", 1_000), &world).unwrap();

    let mut later = Snapshot::new(Some(1_060));
    later.observe("/w/a", true, true, None);
    later.observe("/w/b", true, true, None);
    later.observe("/w/c", true, false, None);
    cache.validate_and_update(&later);
    assert_eq!(sorted_keys(&cache), vec!["/w/a".to_string()]);
    let kept = cache.get("/w/a").unwrap();
    assert_eq!((kept.last_modified, kept.last_checked), (1_000, 1_000));

    cache.validate_and_update(&later);
    assert_eq!(sorted_keys(&cache), vec!["/w/a".to_string()]);
    assert_eq!(cache.get("/w/a").unwrap().last_checked, 1_000);
}

#[test]
fn validate_entries_keeps_the_valid_paths_in_order() {
    let world = world_with(1_000, &["/w/a", "/w/b", "/w/c"]);
    let mut cache = cache_with_limit(100, None);
    cache.insert("/w/a".to_string(), entry("/w/a", 1_000), &world).unwrap();
    cache.insert("/w/b".to_string(), entry("/w/b", 900), &world).unwrap();
    cache.insert("/w/c".to_string(), entry("/w/c", 1_000), &world).unwrap();
    let mut later = Snapshot::new(Some(1_001));
    later.observe("/w/a", true, true, None);
    later.observe("/w/b", true, true, None);
    later.observe("/w/c", true, true, None);
    let asked: Vec<String> =
        ["/w/c", "/w/x", "/w/b", "/w/a", "/w/c"].iter().map(|s| s.to_string()).collect();
    let valid = cache.validate_entries(&asked, &later);
    assert_eq!(valid, vec!["/w/c".to_string(), "/w/a".to_string(), "/w/c".to_string()]);
    assert_eq!(cache.len(), 3);
}

#[test]
fn update_and_save_stores_a_fresh_entry() {
    let mut world = Snapshot::new(Some(1_000));
    world.observe("/w/a", true, true, Some(42));
    world.observe("/w/b", true, false, Some(42));
    let mut cache = empty_cache();
    assert!(cache.update_and_save("/w/a", &world).is_ok());
    let a = cache.get("/w/a").unwrap();
    assert_eq!((a.last_modified, a.last_checked), (42, 1_000));
    assert!(matches!(
        cache.update_and_save("/w/b", &world),
        Err(CacheError::InvalidEntryError(_))
    ));
    assert_eq!(cache.len(), 1);
}

#[test]
fn update_and_save_many_stores_every_path_unchecked() {
    let mut world = Snapshot::new(Some(1_000));
    world.observe("/w/a", true, true, Some(42));
    let mut cache = cache_with_limit(100, Some(1));
    let paths: Vec<String> = ["/w/a", "/w/gone", "/w/a"].iter().map(|s| s.to_string()).collect();
    cache.update_and_save_many(&paths, &world);
    assert_eq!(sorted_keys(&cache), vec!["/w/a".to_string(), "/w/gone".to_string()]);
    assert_eq!(cache.get("/w/gone").unwrap().last_modified, 1_000);
    assert_eq!(cache.get("/w/a").unwrap().last_modified, 42);
}

#[test]
fn persisted_cache_reloads_to_the_same_entries() {
    let world = world_with(1_000, &["/w/a", "/w/b"]);
    let mut cache = cache_with_limit(100, None);
    cache.insert("/w/a".to_string(), entry("/w/a", 990), &world).unwrap();
    cache.insert("/w/b".to_string(), entry("/w/b", 980), &world).unwrap();
    let data = cache.to_data();
    assert_eq!(data.version, 1);
    let config = CacheConfig { ttl_seconds: 100, max_entries: None, cache_path: None };
    let again = Cache::with_config(config, "cache.json".to_string(), CacheFile::Parsed(data));
    assert_eq!(sorted_keys(&again), sorted_keys(&cache));
    assert_eq!(again.get("/w/a").unwrap().last_checked, 990);
    assert_eq!(again.get("/w/b").unwrap().last_checked, 980);
}

#[test]
fn other_version_loads_as_an_empty_cache() {
    let data = CacheData { entries: Vec::new(), version: 2 };
    let cache =
        Cache::with_config(CacheConfig::default(), "cache.json".to_string(), CacheFile::Parsed(data));
    assert_eq!(cache.len(), 0);
    let data = CacheData { entries: vec![("/w/a".to_string(), entry("/w/a", 1))], version: 2 };
    assert!(matches!(load_cache(CacheFile::Parsed(data)), Err(CacheError::InvalidVersion(2))));
}

#[test]
fn load_cache_tells_the_cases_apart() {
    assert_eq!(load_cache(CacheFile::Missing).unwrap().len(), 0);
    assert!(matches!(
        load_cache(CacheFile::Unreadable("denied".to_string())),
        Err(CacheError::IoError(m)) if m == "denied"
    ));
    assert!(matches!(
        load_cache(CacheFile::Malformed("eof".to_string())),
        Err(CacheError::ParseError(m)) if m == "eof"
    ));
    let data = CacheData { entries: vec![("/w/a".to_string(), entry("/w/a", 1))], version: 1 };
    assert_eq!(load_cache(CacheFile::Parsed(data)).unwrap().len(), 1);
}

#[test]
fn unusable_file_gives_an_empty_cache() {
    let config = CacheConfig { ttl_seconds: 5, max_entries: None, cache_path: Some("/x/c.json".to_string()) };
    let cache = Cache::with_config(config, "cache.json".to_string(), CacheFile::Malformed("bad".to_string()));
    assert_eq!(cache.len(), 0);
    assert_eq!(cache.cache_path(), "/x/c.json");
    assert_eq!(cache.ttl_seconds(), 5);
    assert_eq!(cache.config().max_entries, None);
}

#[test]
fn later_pair_of_a_key_wins_on_load() {
    let data = CacheData {
        entries: vec![("/w/a".to_string(), entry("/w/a", 1)), ("/w/a".to_string(), entry("/w/a", 2))],
        version: 1,
    };
    let cache =
        Cache::with_config(CacheConfig::default(), "cache.json".to_string(), CacheFile::Parsed(data));
    assert_eq!(cache.len(), 1);
    assert_eq!(cache.get("/w/a").unwrap().last_checked, 2);
}
