//! Listing the repositories below a root directory.
//!
//! A walker visits the entries below the root, many at a time, and asks for
//! each what to do next. The answers are given here, and so is the list of the
//! repositories found. The cache is asked first and told afterwards.

use crate::cache::{entry_is_valid, pruned, refreshed, Cache, CacheEntry, EntryView};
use crate::snapshot::Snapshot;
use crate::text::views;
use vstd::prelude::*;

verus! {

/// How a tree is walked.
#[derive(Debug)]
pub struct WalkerConfig {
    /// How many levels below the root are visited, if there is a limit.
    pub max_depth: Option<usize>,
    /// Whether symbolic links are followed.
    pub follow_links: bool,
    /// Whether the walk stays on the filesystem of the root.
    pub same_file_system: bool,
    /// How many workers walk at a time.
    pub threads: usize,
    /// After how many repositories the walk is told to stop, if at all.
    pub max_repos: Option<usize>,
    /// Whether the directories below a repository are left out.
    pub stop_at_git: bool,
}

/// The number of processors the walk may use.
///
/// Calls `num_cpus::get`, which asks the operating system. Which number comes
/// back depends on the machine; the crate documents that it is always at
/// least one, and that much is claimed here.
#[verifier::external_body]
fn available_cpus() -> (n: usize)
    ensures
        n >= 1,
{
    num_cpus::get()
}

impl Default for WalkerConfig {
    /// Four levels deep, links not followed, one filesystem, as many workers as
    /// the machine has processors, no limit on repositories, repositories not
    /// entered.
    fn default() -> (config: Self)
        ensures
            config.max_depth == Some(4usize),
            !config.follow_links,
            config.same_file_system,
            config.threads >= 1,
            config.max_repos is None,
            config.stop_at_git,
    {
        WalkerConfig {
            max_depth: Some(4),
            follow_links: false,
            same_file_system: true,
            threads: available_cpus(),
            max_repos: None,
            stop_at_git: true,
        }
    }
}

impl Clone for WalkerConfig {
    fn clone(&self) -> (copy: Self)
        ensures
            copy == *self,
    {
        WalkerConfig {
            max_depth: self.max_depth,
            follow_links: self.follow_links,
            same_file_system: self.same_file_system,
            threads: self.threads,
            max_repos: self.max_repos,
            stop_at_git: self.stop_at_git,
        }
    }
}

/// What the walker is to do after it has visited an entry.
#[derive(Clone, Copy, Debug, PartialEq, Eq, Structural)]
pub enum WalkDecision {
    /// Go on, and enter the entry if it is a directory.
    Continue,
    /// Go on, but leave out whatever lies below the entry.
    Skip,
    /// Stop the whole walk as soon as may be.
    Quit,
}

/// The answer for an entry, where `found` counts the repositories recorded
/// once the entry was dealt with. An entry that is no repository is walked on.
/// A repository stops the walk where the count has reached the limit;
/// otherwise a repository that is a directory is not entered where the walk
/// stops at repositories.
pub open spec fn decision_for(
    config: WalkerConfig,
    is_repo: bool,
    is_dir: bool,
    found: nat,
) -> WalkDecision {
    if !is_repo {
        WalkDecision::Continue
    } else if config.max_repos matches Some(max) && found >= max {
        WalkDecision::Quit
    } else if config.stop_at_git && is_dir {
        WalkDecision::Skip
    } else {
        WalkDecision::Continue
    }
}

/// Decides what the walker does after an entry.
pub fn decide(config: &WalkerConfig, is_repo: bool, is_dir: bool, found: usize) -> (decision:
    WalkDecision)
    ensures
        decision == decision_for(*config, is_repo, is_dir, found as nat),
{
    if !is_repo {
        return WalkDecision::Continue;
    }
    if let Some(max_repos) = config.max_repos {
        if found >= max_repos {
            return WalkDecision::Quit;
        }
    }
    if config.stop_at_git && is_dir {
        return WalkDecision::Skip;
    }
    WalkDecision::Continue
}

/// One entry as a walker came upon it.
pub struct Entry {
    pub path: Seq<char>,
    pub is_repo: bool,
    pub is_dir: bool,
}

/// Whether a walk that has recorded `found` repositories records one more:
/// always where there is no limit, else only below the limit.
pub open spec fn has_room(config: WalkerConfig, found: nat) -> bool {
    match config.max_repos {
        Some(max) => found < max,
        None => true,
    }
}

/// The paths that a walk records when it visits the entries in their order:
/// those of the repositories among them, as long as there is room.
pub open spec fn repos_found(config: WalkerConfig, entries: Seq<Entry>) -> Seq<Seq<char>>
    decreases entries.len(),
{
    if entries.len() == 0 {
        Seq::empty()
    } else {
        let before = repos_found(config, entries.drop_last());
        if entries.last().is_repo && has_room(config, before.len()) {
            before.push(entries.last().path)
        } else {
            before
        }
    }
}

/// The answer that the entry at position `i` gets when the entries are
/// visited in their order.
pub open spec fn answer_at(config: WalkerConfig, entries: Seq<Entry>, i: int) -> WalkDecision {
    decision_for(
        config,
        entries[i].is_repo,
        entries[i].is_dir,
        repos_found(config, entries.take(i + 1)).len(),
    )
}

/// One more, up to the largest number.
pub open spec fn counted_up(n: usize) -> usize {
    if n < usize::MAX {
        (n + 1) as usize
    } else {
        n
    }
}

/// What a visit comes to: what the walker does next, and whether the entry
/// was recorded as a repository. Only a recorded entry is part of the listing.
#[derive(Clone, Copy, Debug, PartialEq, Eq, Structural)]
pub struct Answer {
    pub decision: WalkDecision,
    pub recorded: bool,
}

/// One walk in progress: what it was asked to do, what it has found, and how
/// many entries it has seen.
///
/// The limit on repositories is exact. A repository is recorded only while
/// fewer than the limit are recorded, whichever worker comes upon it, and the
/// walk is told to stop from the repository on that reaches the limit.
pub struct Walk {
    config: WalkerConfig,
    found: Vec<String>,
    scanned: usize,
    seen: Ghost<Seq<Entry>>,
}

impl Walk {
    /// What was found is what the entries seen so far come to.
    #[verifier::type_invariant]
    spec fn found_is_what_was_seen(&self) -> bool {
        views(self.found@) == repos_found(self.config, self.seen@)
    }

    /// How the tree is walked.
    pub closed spec fn settings(&self) -> WalkerConfig {
        self.config
    }

    /// The entries visited so far, in the order of the visits. An entry that
    /// could not be read is not among them.
    pub closed spec fn seen(&self) -> Seq<Entry> {
        self.seen@
    }

    /// The repositories recorded so far, in the order in which they were visited.
    pub closed spec fn found_paths(&self) -> Seq<Seq<char>> {
        views(self.found@)
    }

    /// The number of visits so far, unreadable entries included; it stops at
    /// the largest number it can hold.
    pub closed spec fn scanned_count(&self) -> usize {
        self.scanned
    }

    /// A walk that has seen nothing yet.
    pub fn new(config: WalkerConfig) -> (walk: Walk)
        ensures
            walk.settings() == config,
            walk.seen() == Seq::<Entry>::empty(),
            walk.found_paths() == Seq::<Seq<char>>::empty(),
            walk.scanned_count() == 0,
    {
        let found: Vec<String> = Vec::new();
        proof {
            assert(views(found@) =~= Seq::<Seq<char>>::empty());
        }
        Walk { config, found, scanned: 0, seen: Ghost(Seq::empty()) }
    }

    /// Takes note of one visited entry and says what the walker does next. A
    /// repository is recorded under its path as long as there is room for it.
    pub fn visit(&mut self, path: &str, is_repo: bool, is_dir: bool) -> (answer: Answer)
        ensures
            final(self).settings() == old(self).settings(),
            final(self).scanned_count() == counted_up(old(self).scanned_count()),
            final(self).seen() == old(self).seen().push(Entry { path: path@, is_repo, is_dir }),
            final(self).found_paths() == repos_found(final(self).settings(), final(self).seen()),
            answer.recorded == (is_repo && has_room(
                old(self).settings(),
                old(self).found_paths().len(),
            )),
            final(self).found_paths() == if answer.recorded {
                old(self).found_paths().push(path@)
            } else {
                old(self).found_paths()
            },
            answer.decision == decision_for(
                old(self).settings(),
                is_repo,
                is_dir,
                final(self).found_paths().len(),
            ),
            answer.decision == answer_at(
                old(self).settings(),
                final(self).seen(),
                old(self).seen().len() as int,
            ),
    {
        proof {
            use_type_invariant(&*self);
        }
        let ghost before = self.seen@;
        let ghost entry = Entry { path: path@, is_repo, is_dir };
        let mut taken = Walk::new(self.config.clone());
        std::mem::swap(self, &mut taken);
        let Walk { config, found, scanned, seen } = taken;
        let mut found = found;
        let ghost found_before = found@;
        let room = match config.max_repos {
            Some(max) => found.len() < max,
            None => true,
        };
        proof {
            assert(views(found_before).len() == found_before.len());
        }
        let recorded = is_repo && room;
        if recorded {
            found.push(path.to_owned());
            proof {
                assert(views(found@) =~= views(found_before).push(path@));
            }
        }
        let decision = decide(&config, is_repo, is_dir, found.len());
        proof {
            assert(before.push(entry).drop_last() =~= before);
            assert(before.push(entry).take(before.len() as int + 1) =~= before.push(entry));
            assert(views(found@).len() == found@.len());
        }
        *self = Walk {
            config,
            found,
            scanned: if scanned < usize::MAX {
                scanned + 1
            } else {
                scanned
            },
            seen: Ghost(before.push(entry)),
        };
        Answer { decision, recorded }
    }

    /// Takes note of an entry that could not be read. The entry is left out
    /// and the walk goes on.
    pub fn visit_error(&mut self) -> (decision: WalkDecision)
        ensures
            final(self).settings() == old(self).settings(),
            final(self).scanned_count() == counted_up(old(self).scanned_count()),
            final(self).seen() == old(self).seen(),
            final(self).found_paths() == old(self).found_paths(),
            decision == WalkDecision::Continue,
    {
        proof {
            use_type_invariant(&*self);
        }
        if self.scanned < usize::MAX {
            self.scanned = self.scanned + 1;
        }
        WalkDecision::Continue
    }

    /// How the tree is walked.
    pub fn config(&self) -> (config: &WalkerConfig)
        ensures
            *config == self.settings(),
    {
        &self.config
    }

    /// The number of repositories recorded so far. It never exceeds the limit.
    pub fn repo_count(&self) -> (n: usize)
        ensures
            n == self.found_paths().len(),
            self.found_paths() == repos_found(self.settings(), self.seen()),
            self.settings().max_repos matches Some(max) ==> n <= max,
    {
        proof {
            use_type_invariant(self);
            assert(views(self.found@).len() == self.found@.len());
            lemma_limit_is_never_exceeded(self.config, self.seen@);
        }
        self.found.len()
    }

    /// The number of visits so far.
    pub fn scanned_dirs(&self) -> (n: usize)
        ensures
            n == self.scanned_count(),
    {
        self.scanned
    }

    /// Ends the walk and hands out what it recorded: no more than the limit.
    pub fn into_found(self) -> (found: Vec<String>)
        ensures
            views(found@) == self.found_paths(),
            views(found@) == repos_found(self.settings(), self.seen()),
            self.settings().max_repos matches Some(max) ==> found@.len() <= max,
    {
        proof {
            use_type_invariant(&self);
            assert(views(self.found@).len() == self.found@.len());
            lemma_limit_is_never_exceeded(self.config, self.seen@);
        }
        self.found
    }
}

/// Prunes the cache and looks the root up in it. Where the cache holds under
/// `root` an entry that is valid in the world shown, that entry is the whole
/// listing and no walk is needed; otherwise the tree must be walked.
pub fn start_listing(cache: &mut Cache, root: &str, world: &Snapshot) -> (hit: Option<CacheEntry>)
    ensures
        final(cache).settings() == old(cache).settings(),
        final(cache).location() == old(cache).location(),
        final(cache)@ == pruned(old(cache)@, old(cache).settings().ttl_seconds, *world),
        match hit {
            Some(entry) => old(cache)@.contains_key(root@) && entry@ == old(cache)@[root@]
                && entry_is_valid(entry@, old(cache).settings().ttl_seconds, *world),
            None => !(old(cache)@.contains_key(root@) && entry_is_valid(
                old(cache)@[root@],
                old(cache).settings().ttl_seconds,
                *world,
            )),
        },
{
    cache.validate_and_update(world);
    match cache.get(root) {
        Some(entry) => {
            if Cache::validate_entry(&entry, cache.ttl_seconds(), world) {
                Some(entry)
            } else {
                None
            }
        },
        None => None,
    }
}

/// Tells the cache of the repositories that a walk found: each is described
/// as the snapshot shows it and stored. Says whether there was anything to
/// store, that is, whether the cache needs to be persisted.
pub fn finish_listing(cache: &mut Cache, found: &Vec<String>, world: &Snapshot) -> (stored: bool)
    ensures
        final(cache).settings() == old(cache).settings(),
        final(cache).location() == old(cache).location(),
        stored == (found@.len() > 0),
        final(cache)@ == refreshed(old(cache)@, views(found@), *world),
{
    if found.len() == 0 {
        proof {
            assert(refreshed(cache@, views(found@), *world) =~= cache@);
        }
        return false;
    }
    cache.update_and_save_many(found, world);
    true
}

/// What `std::path::Path::strip_prefix` yields for `path` and `base`: the rest
/// of `path` after `base`, where `base` is a prefix of `path` component by
/// component, and nothing where it is not.
pub uninterp spec fn relative_to(path: Seq<char>, base: Seq<char>) -> Option<Seq<char>>;

/// A line, if there is one, as a sequence of characters.
pub open spec fn line_view(line: Option<String>) -> Option<Seq<char>> {
    match line {
        Some(text) => Some(text@),
        None => None,
    }
}

/// The path relative to `base`, where `base` is a prefix of it.
///
/// Calls `std::path::Path::strip_prefix`, which reads its two arguments alone
/// and compares them component by component; its result is named
/// `relative_to`. Nothing more is claimed of it.
#[verifier::external_body]
fn strip_prefix(path: &str, base: &str) -> (relative: Option<String>)
    ensures
        line_view(relative) == relative_to(path@, base@),
{
    std::path::Path::new(path).strip_prefix(base).ok().map(|p| p.to_string_lossy().into_owned())
}

/// The line that shows a repository, given its path relative to the root
/// where it has one: the whole path where that is asked for, else the relative
/// path, and no line where there is none.
pub fn line_for(path: &str, full: bool, relative: Option<String>) -> (line: Option<String>)
    ensures
        full ==> (line matches Some(text) && text@ == path@),
        !full ==> line == relative,
{
    if full {
        Some(path.to_owned())
    } else {
        relative
    }
}

/// The line that shows the repository at `path` in a listing of `root`: the
/// whole path where that is asked for, else the path relative to the root,
/// and no line for a path that does not lie at or below the root.
pub fn display_line(path: &str, root: &str, full: bool) -> (line: Option<String>)
    ensures
        full ==> line_view(line) == Some(path@),
        !full ==> line_view(line) == relative_to(path@, root@),
{
    let relative = if full {
        None
    } else {
        strip_prefix(path, root)
    };
    line_for(path, full, relative)
}

/// `inner` names a place strictly below the directory `outer`.
pub open spec fn is_strictly_below(inner: Seq<char>, outer: Seq<char>) -> bool {
    &&& outer.len() < inner.len()
    &&& inner.subrange(0, outer.len() as int) == outer
    &&& (inner[outer.len() as int] == '/' || (outer.len() > 0 && outer.last() == '/'))
}

/// The walker did as it was told: it came upon something below an entry only
/// where that entry is a directory and the answer for it was to go on.
pub open spec fn honours_answers(config: WalkerConfig, entries: Seq<Entry>) -> bool {
    forall|i: int, j: int|
        0 <= i < entries.len() && 0 <= j < entries.len() && is_strictly_below(
            #[trigger] entries[j].path,
            #[trigger] entries[i].path,
        ) ==> entries[i].is_dir && answer_at(config, entries, i) == WalkDecision::Continue
}

/// The number of repositories among the entries.
pub open spec fn repos_among(entries: Seq<Entry>) -> nat
    decreases entries.len(),
{
    if entries.len() == 0 {
        0
    } else {
        repos_among(entries.drop_last()) + if entries.last().is_repo {
            1nat
        } else {
            0nat
        }
    }
}

/// A walk never records more repositories than its limit allows, whatever it
/// is shown and in whatever order.
pub proof fn lemma_limit_is_never_exceeded(config: WalkerConfig, entries: Seq<Entry>)
    ensures
        config.max_repos matches Some(max) ==> repos_found(config, entries).len() <= max,
    decreases entries.len(),
{
    if entries.len() > 0 {
        lemma_limit_is_never_exceeded(config, entries.drop_last());
    }
}

/// A walk records every repository it is shown until the limit is reached:
/// the number recorded is the number of repositories shown, or the limit where
/// that is less.
pub proof fn lemma_records_all_up_to_the_limit(config: WalkerConfig, entries: Seq<Entry>)
    ensures
        repos_found(config, entries).len() == match config.max_repos {
            Some(max) => if repos_among(entries) < max {
                repos_among(entries)
            } else {
                max as nat
            },
            None => repos_among(entries),
        },
    decreases entries.len(),
{
    if entries.len() > 0 {
        lemma_records_all_up_to_the_limit(config, entries.drop_last());
    }
}

/// With a limit of no repositories at all, nothing is ever recorded, and the
/// first repository that is come upon stops the walk.
pub proof fn lemma_limit_of_none_records_nothing(config: WalkerConfig, entries: Seq<Entry>)
    requires
        config.max_repos == Some(0usize),
    ensures
        repos_found(config, entries) == Seq::<Seq<char>>::empty(),
        forall|i: int|
            0 <= i < entries.len() && entries[i].is_repo ==> #[trigger] answer_at(
                config,
                entries,
                i,
            ) == WalkDecision::Quit,
{
    lemma_limit_is_never_exceeded(config, entries);
    assert(repos_found(config, entries) =~= Seq::<Seq<char>>::empty());
    assert forall|i: int| 0 <= i < entries.len() && entries[i].is_repo implies #[trigger] answer_at(
        config,
        entries,
        i,
    ) == WalkDecision::Quit by {
        lemma_limit_is_never_exceeded(config, entries.take(i + 1));
    }
}

/// A repository is never walked on into: where the walk stops at repositories,
/// the answer for a directory that is a repository is not to go on.
pub proof fn lemma_repository_is_not_entered(config: WalkerConfig, is_dir: bool, found: nat)
    requires
        config.stop_at_git,
        is_dir,
    ensures
        decision_for(config, true, is_dir, found) != WalkDecision::Continue,
{
}

/// Every path that was recorded is the path of an entry that was seen to be a
/// repository.
pub proof fn lemma_found_was_seen(config: WalkerConfig, entries: Seq<Entry>, k: int)
    requires
        0 <= k < repos_found(config, entries).len(),
    ensures
        exists|i: int|
            0 <= i < entries.len() && entries[i].is_repo && #[trigger] entries[i].path
                == repos_found(config, entries)[k],
    decreases entries.len(),
{
    let front = entries.drop_last();
    if k == repos_found(config, front).len() {
        assert(entries[entries.len() - 1].path == repos_found(config, entries)[k]);
    } else {
        lemma_found_was_seen(config, front, k);
        let i = choose|i: int|
            0 <= i < front.len() && front[i].is_repo && #[trigger] front[i].path == repos_found(
                config,
                front,
            )[k];
        assert(entries[i].path == repos_found(config, entries)[k]);
    }
}

/// Where the walk stops at repositories and the walker does as it is told, no
/// repository that is recorded lies strictly below another that is recorded.
pub proof fn lemma_found_repositories_are_not_nested(config: WalkerConfig, entries: Seq<Entry>)
    requires
        config.stop_at_git,
        honours_answers(config, entries),
    ensures
        forall|a: int, b: int|
            0 <= a < repos_found(config, entries).len() && 0 <= b < repos_found(
                config,
                entries,
            ).len() ==> !is_strictly_below(
                #[trigger] repos_found(config, entries)[b],
                #[trigger] repos_found(config, entries)[a],
            ),
{
    let found = repos_found(config, entries);
    assert forall|a: int, b: int| 0 <= a < found.len() && 0 <= b < found.len()
        implies !is_strictly_below(#[trigger] found[b], #[trigger] found[a]) by {
        lemma_found_was_seen(config, entries, a);
        lemma_found_was_seen(config, entries, b);
        let i = choose|i: int|
            0 <= i < entries.len() && entries[i].is_repo && #[trigger] entries[i].path
                == found[a];
        let j = choose|j: int|
            0 <= j < entries.len() && entries[j].is_repo && #[trigger] entries[j].path
                == found[b];
        if is_strictly_below(entries[j].path, entries[i].path) {
            assert(entries[i].is_dir && answer_at(config, entries, i) == WalkDecision::Continue);
            lemma_repository_is_not_entered(
                config,
                entries[i].is_dir,
                repos_found(config, entries.take(i + 1)).len(),
            );
        }
    }
}

/// The walk is told to stop exactly at the repositories that are come upon
/// once the limit is reached.
pub proof fn lemma_limit_stops_the_walk(config: WalkerConfig, is_dir: bool, found: nat)
    requires
        config.max_repos is Some,
    ensures
        decision_for(config, true, is_dir, found) == WalkDecision::Quit <==> found
            >= config.max_repos->0,
{
}

/// A walk from a root that is itself a repository finds the root and nothing
/// else, where the walk stops at repositories, has room for one, and the
/// walker does as it is told and stays at or below the root. With
/// `lemma_listed_root_is_cached` this is why a second listing of such a root
/// shows what the first one showed without a walk.
pub proof fn lemma_repository_root_is_found_alone(
    config: WalkerConfig,
    entries: Seq<Entry>,
    root: Seq<char>,
)
    requires
        config.stop_at_git,
        has_room(config, 0),
        entries.len() > 0,
        entries[0].path == root,
        entries[0].is_repo,
        entries[0].is_dir,
        forall|j: int| 0 < j < entries.len() ==> is_strictly_below(#[trigger] entries[j].path, root),
        honours_answers(config, entries),
    ensures
        repos_found(config, entries) == seq![root],
{
    if entries.len() > 1 {
        assert(is_strictly_below(entries[1].path, entries[0].path));
        assert(answer_at(config, entries, 0) == WalkDecision::Continue);
        lemma_repository_is_not_entered(
            config,
            entries[0].is_dir,
            repos_found(config, entries.take(1)).len(),
        );
    }
    assert(entries.len() == 1);
    assert(repos_found(config, entries.drop_last()) =~= Seq::<Seq<char>>::empty());
    assert(entries.last() == entries[0]);
    assert(repos_found(config, entries) =~= seq![root]);
}

/// A repository that a listing has just found and stored is answered from the
/// cache when the same snapshot is asked again: its entry is there and valid.
pub proof fn lemma_listed_root_is_cached(
    entries: Map<Seq<char>, EntryView>,
    found: Seq<Seq<char>>,
    root: Seq<char>,
    ttl: u64,
    world: Snapshot,
)
    requires
        found.contains(root),
        world.now is Some,
        world.path_exists(root),
        world.git_exists(root),
    ensures
        refreshed(entries, found, world).contains_key(root),
        entry_is_valid(refreshed(entries, found, world)[root], ttl, world),
        pruned(refreshed(entries, found, world), ttl, world).contains_key(root),
{
}

} // verus!
