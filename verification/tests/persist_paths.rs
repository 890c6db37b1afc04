use rkit::cache::{Cache, CacheConfig, CacheError};
use rkit::stored::CacheFile;
use rkit::error::RkitError;
use rkit::paths::{
    cache_file_in, cache_path_for_home, get_cache_path, join_path, resolve_cache_path,
    validate_cache_path,
};
use rkit::persist::{after_step, first_step, SaveAction, SaveStep, StepError};
use rkit::snapshot::Snapshot;

fn failure(path: &str, reason: &str) -> Result<(), StepError> {
    Err(StepError { path: path.to_string(), reason: reason.to_string() })
}

#[test]
fn paths_are_joined_with_one_separator() {
    assert_eq!(join_path("/home/u", ".config"), "/home/u/.config");
    assert_eq!(join_path("/home/u/", ".config"), "/home/u/.config");
    assert_eq!(join_path("", "rkit"), "rkit");
    assert_eq!(cache_file_in("/home/u/.config"), "/home/u/.config/rkit/cache.json");
    assert_eq!(cache_file_in("/tmp/"), "/tmp/rkit/cache.json");
}

#[test]
fn default_cache_path_lies_below_the_home_directory() {
    assert_eq!(
        cache_path_for_home(Some("/home/u".to_string())).unwrap(),
        "/home/u/.config/rkit/cache.json"
    );
    assert!(matches!(
        cache_path_for_home(None),
        Err(CacheError::DirectoryError(RkitError::ConfigError(m)))
            if m == "Failed to get home directory"
    ));
    match get_cache_path() {
        Ok(path) => assert!(path.ends_with(".config/rkit/cache.json")),
        Err(e) => assert!(matches!(e, CacheError::DirectoryError(RkitError::ConfigError(_)))),
    }
}

#[test]
fn cache_path_must_be_free_or_a_file() {
    assert!(validate_cache_path("/c/cache.json", false, false).is_ok());
    assert!(validate_cache_path("/c/cache.json", true, true).is_ok());
    assert!(matches!(
        validate_cache_path("/c/cache.json", true, false),
        Err(CacheError::DirectoryError(RkitError::ConfigError(m)))
            if m == "Cache path exists but is not a file: /c/cache.json"
    ));
}

#[test]
fn save_plan_names_the_temporary_file_and_holds_everything() {
    let mut world = Snapshot::new(Some(10));
    world.observe("/w/a", true, true, None);
    let config =
        CacheConfig { ttl_seconds: 5, max_entries: None, cache_path: Some("/c/cache.json".to_string()) };
    let mut cache = Cache::with_config(config, "unused".to_string(), CacheFile::Missing);
    cache.update_and_save("/w/a", &world).unwrap();
    let plan = cache.save();
    assert_eq!(plan.target, "/c/cache.json");
    assert_eq!(plan.temp, "/c/cache.json.tmp");
    assert_eq!(plan.data.version, 1);
    assert_eq!(plan.data.entries.len(), 1);
    assert_eq!(plan.data.entries[0].0, "/w/a");
    assert_eq!(plan.data.entries[0].1.last_checked, 10);
}

#[test]
fn save_takes_its_steps_in_order() {
    assert_eq!(first_step(), SaveStep::CreateDir);
    assert!(matches!(after_step(SaveStep::CreateDir, Ok(())), SaveAction::Run(SaveStep::Serialize)));
    assert!(matches!(after_step(SaveStep::Serialize, Ok(())), SaveAction::Run(SaveStep::WriteTemp)));
    assert!(matches!(after_step(SaveStep::WriteTemp, Ok(())), SaveAction::Run(SaveStep::Rename)));
    assert!(matches!(
        after_step(SaveStep::Rename, Ok(())),
        SaveAction::Finish { remove_temp: false, result: Ok(()) }
    ));
}

#[test]
fn failed_write_or_rename_removes_the_temporary_file() {
    assert!(matches!(
        after_step(SaveStep::WriteTemp, failure("/c/cache.json.tmp", "disk full")),
        SaveAction::Finish { remove_temp: true, result: Err(CacheError::IoError(m)) }
            if m == "disk full"
    ));
    assert!(matches!(
        after_step(SaveStep::Rename, failure("/c/cache.json.tmp", "busy")),
        SaveAction::Finish { remove_temp: true, result: Err(CacheError::IoError(m)) }
            if m == "busy"
    ));
}

#[test]
fn failure_before_the_write_leaves_nothing_to_remove() {
    assert!(matches!(
        after_step(SaveStep::CreateDir, failure("/c", "denied")),
        SaveAction::Finish {
            remove_temp: false,
            result: Err(CacheError::DirectoryError(RkitError::DirectoryCreationError { path, source })),
        } if path == "/c" && source == "denied"
    ));
    assert!(matches!(
        after_step(SaveStep::Serialize, failure("", "bad key")),
        SaveAction::Finish { remove_temp: false, result: Err(CacheError::ParseError(m)) }
            if m == "bad key"
    ));
}

#[test]
fn cache_path_is_configured_or_default_or_temporary() {
    let failed = || Err(CacheError::DirectoryError(RkitError::ConfigError("no home".to_string())));
    assert_eq!(resolve_cache_path(Some("/x/c.json".to_string()), failed(), "/tmp"), "/x/c.json");
    assert_eq!(
        resolve_cache_path(None, Ok("/home/u/.config/rkit/cache.json".to_string()), "/tmp"),
        "/home/u/.config/rkit/cache.json"
    );
    assert_eq!(resolve_cache_path(None, failed(), "/tmp"), "/tmp/rkit/cache.json");
}
