use rkit::cache::{Cache, CacheConfig};
use rkit::stored::CacheFile;
use rkit::commands::ls::{
    decide, display_line, finish_listing, line_for, start_listing, Answer, Walk, WalkDecision,
    WalkerConfig,
};
use rkit::snapshot::Snapshot;

fn config(max_repos: Option<usize>, stop_at_git: bool) -> WalkerConfig {
    WalkerConfig {
        max_depth: Some(4),
        follow_links: false,
        same_file_system: true,
        threads: 4,
        max_repos,
        stop_at_git,
    }
}

/// A directory tree: a path, whether it holds a `.git` entry, and what lies below.
struct Dir {
    path: &'static str,
    is_repo: bool,
    children: Vec<Dir>,
}

/// Walks the tree as a walker does that honours the answers it gets.
fn walk_tree(walk: &mut Walk, dir: &Dir) -> bool {
    match walk.visit(dir.path, dir.is_repo, true).decision {
        WalkDecision::Quit => return false,
        WalkDecision::Skip => return true,
        WalkDecision::Continue => {}
    }
    for child in &dir.children {
        if !walk_tree(walk, child) {
            return false;
        }
    }
    true
}

#[test]
fn default_walker_config() {
    let c = WalkerConfig::default();
    assert_eq!(c.max_depth, Some(4));
    assert!(!c.follow_links);
    assert!(c.same_file_system);
    assert_eq!(c.max_repos, None);
    assert!(c.stop_at_git);
    assert!(c.threads >= 1);
}

#[test]
fn decisions_follow_the_policy() {
    let c = config(Some(2), true);
    assert_eq!(decide(&c, false, true, 0), WalkDecision::Continue);
    assert_eq!(decide(&c, true, true, 1), WalkDecision::Skip);
    assert_eq!(decide(&c, true, false, 1), WalkDecision::Continue);
    assert_eq!(decide(&c, true, true, 2), WalkDecision::Quit);
    assert_eq!(decide(&c, true, false, 3), WalkDecision::Quit);
    let open = config(None, false);
    assert_eq!(decide(&open, true, true, 100), WalkDecision::Continue);
}

#[test]
fn nested_repository_is_not_reported() {
    let tree = Dir {
        path: "/root",
        is_repo: false,
        children: vec![Dir {
            path: "/root/a",
            is_repo: true,
            children: vec![Dir { path: "/root/a/b", is_repo: true, children: vec![] }],
        }],
    };
    let mut walk = Walk::new(WalkerConfig::default());
    walk_tree(&mut walk, &tree);
    assert_eq!(walk.repo_count(), 1);
    assert_eq!(walk.scanned_dirs(), 2);
    assert_eq!(walk.into_found(), vec!["/root/a".to_string()]);
}

#[test]
fn nested_repository_is_reported_when_repositories_are_entered() {
    let tree = Dir {
        path: "/root/a",
        is_repo: true,
        children: vec![Dir { path: "/root/a/b", is_repo: true, children: vec![] }],
    };
    let mut walk = Walk::new(config(None, false));
    walk_tree(&mut walk, &tree);
    assert_eq!(walk.into_found(), vec!["/root/a".to_string(), "/root/a/b".to_string()]);
}

#[test]
fn walk_stops_at_the_limit_and_records_no_late_arrival() {
    let repos = ["/r/1", "/r/2", "/r/3", "/r/4", "/r/5"];
    let mut walk = Walk::new(config(Some(2), true));
    assert_eq!(
        walk.visit(repos[0], true, true),
        Answer { decision: WalkDecision::Skip, recorded: true }
    );
    assert_eq!(
        walk.visit(repos[1], true, true),
        Answer { decision: WalkDecision::Quit, recorded: true }
    );
    assert_eq!(walk.repo_count(), 2);
    // up to three other workers may be in the middle of a visit when the walk is told to stop
    for late in &repos[2..] {
        assert_eq!(
            walk.visit(late, true, true),
            Answer { decision: WalkDecision::Quit, recorded: false }
        );
    }
    let count = walk.repo_count();
    assert!(count >= 2 && count <= 2 + 3);
    assert_eq!(walk.scanned_dirs(), 5);
    assert_eq!(walk.into_found(), vec!["/r/1".to_string(), "/r/2".to_string()]);
}

#[test]
fn limit_of_no_repositories_records_nothing() {
    let mut walk = Walk::new(WalkerConfig { threads: 1, ..config(Some(0), true) });
    assert_eq!(
        walk.visit("/r", false, true),
        Answer { decision: WalkDecision::Continue, recorded: false }
    );
    assert_eq!(
        walk.visit("/r/1", true, true),
        Answer { decision: WalkDecision::Quit, recorded: false }
    );
    assert_eq!(walk.repo_count(), 0);
    assert!(walk.into_found().is_empty());
}

#[test]
fn walk_through_a_tree_stops_at_the_limit() {
    let tree = Dir {
        path: "/r",
        is_repo: false,
        children: vec![
            Dir { path: "/r/1", is_repo: true, children: vec![] },
            Dir { path: "/r/2", is_repo: true, children: vec![] },
            Dir { path: "/r/3", is_repo: true, children: vec![] },
        ],
    };
    let mut walk = Walk::new(config(Some(2), true));
    assert!(!walk_tree(&mut walk, &tree));
    assert_eq!(walk.config().max_repos, Some(2));
    assert_eq!(walk.into_found(), vec!["/r/1".to_string(), "/r/2".to_string()]);
}

#[test]
fn unreadable_entry_is_counted_and_left_out() {
    let mut walk = Walk::new(config(None, true));
    assert_eq!(walk.visit_error(), WalkDecision::Continue);
    assert_eq!(
        walk.visit("/r/file", false, false),
        Answer { decision: WalkDecision::Continue, recorded: false }
    );
    assert_eq!(walk.scanned_dirs(), 2);
    assert_eq!(walk.repo_count(), 0);
}

#[test]
fn second_listing_is_answered_by_the_cache() {
    let mut world = Snapshot::new(Some(1_000));
    world.observe("/w/repo", true, true, Some(5));
    let mut cache =
        Cache::with_config(CacheConfig::default(), "cache.json".to_string(), CacheFile::Missing);

    assert!(start_listing(&mut cache, "/w/repo", &world).is_none());
    let mut walk = Walk::new(WalkerConfig::default());
    assert_eq!(
        walk.visit("/w/repo", true, true),
        Answer { decision: WalkDecision::Skip, recorded: true }
    );
    let found = walk.into_found();
    assert!(finish_listing(&mut cache, &found, &world));

    let hit = start_listing(&mut cache, "/w/repo", &world).unwrap();
    assert_eq!(vec![hit.path], found);
}

#[test]
fn listing_below_a_plain_root_walks_again() {
    let mut world = Snapshot::new(Some(1_000));
    world.observe("/w", true, false, None);
    world.observe("/w/a", true, true, None);
    let mut cache = Cache::new("cache.json".to_string(), CacheFile::Missing);
    assert!(start_listing(&mut cache, "/w", &world).is_none());
    assert!(finish_listing(&mut cache, &vec!["/w/a".to_string()], &world));
    assert!(start_listing(&mut cache, "/w", &world).is_none());
    assert_eq!(cache.len(), 1);
}

#[test]
fn listing_prunes_and_skips_stale_root() {
    let mut world = Snapshot::new(Some(1_000));
    world.observe("/w/repo", true, true, None);
    let mut cache = Cache::new("cache.json".to_string(), CacheFile::Missing);
    cache.update_and_save("/w/repo", &world).unwrap();
    let mut later = Snapshot::new(Some(1_000 + 86_401));
    later.observe("/w/repo", true, true, None);
    assert!(start_listing(&mut cache, "/w/repo", &later).is_none());
    assert_eq!(cache.len(), 0);
}

#[test]
fn empty_walk_stores_nothing() {
    let world = Snapshot::new(Some(1));
    let mut cache = Cache::new("cache.json".to_string(), CacheFile::Missing);
    assert!(!finish_listing(&mut cache, &Vec::new(), &world));
    assert_eq!(cache.len(), 0);
}

#[test]
fn lines_are_whole_or_relative() {
    assert_eq!(display_line("/w/github.com/o/r", "/w", true), Some("/w/github.com/o/r".to_string()));
    assert_eq!(display_line("/w/github.com/o/r", "/w", false), Some("github.com/o/r".to_string()));
    assert_eq!(display_line("/w/repo", "/w/repo", false), Some(String::new()));
    assert_eq!(display_line("/elsewhere/r", "/w", false), None);
    assert_eq!(line_for("/w/r", false, None), None);
    assert_eq!(line_for("/w/r", false, Some("r".to_string())), Some("r".to_string()));
    assert_eq!(line_for("/w/r", true, None), Some("/w/r".to_string()));
}
