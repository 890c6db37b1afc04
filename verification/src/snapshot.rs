//! The clock and the filesystem as they were observed at one moment.
//!
//! The rules of the cache never look at the disk themselves. Whoever calls them
//! looks first, writes down what was seen, and hands the record over.

use vstd::prelude::*;

verus! {

/// What was seen of one path.
#[derive(Debug)]
pub struct PathState {
    /// The path that was looked at.
    pub path: String,
    /// Whether anything exists at the path.
    pub exists: bool,
    /// Whether a `.git` entry exists directly below the path.
    pub has_git: bool,
    /// The path's modification time in seconds since the epoch, where it could be read.
    pub modified: Option<u64>,
}

/// One reading of the clock together with the state of every path that was looked at.
#[derive(Debug)]
pub struct Snapshot {
    /// Seconds since the epoch, or `None` where the clock could not be read.
    pub now: Option<u64>,
    /// The paths that were looked at; of two records of one path the first counts.
    pub paths: Vec<PathState>,
}

impl Snapshot {
    /// Position `i` holds the first record of `path`.
    pub open spec fn first_record(&self, path: Seq<char>, i: int) -> bool {
        &&& 0 <= i < self.paths@.len()
        &&& self.paths@[i].path@ == path
        &&& forall|j: int| 0 <= j < i ==> self.paths@[j].path@ != path
    }

    /// The record that counts for `path`, if the path was looked at.
    pub open spec fn record(&self, path: Seq<char>) -> Option<PathState> {
        if exists|i: int| self.first_record(path, i) {
            Some(self.paths@[choose|i: int| self.first_record(path, i)])
        } else {
            None
        }
    }

    /// The path was looked at and something was there.
    pub open spec fn path_exists(&self, path: Seq<char>) -> bool {
        self.record(path) matches Some(r) && r.exists
    }

    /// The path was looked at and a `.git` entry was directly below it.
    pub open spec fn git_exists(&self, path: Seq<char>) -> bool {
        self.record(path) matches Some(r) && r.has_git
    }

    /// The modification time seen for the path, if any.
    pub open spec fn modified(&self, path: Seq<char>) -> Option<u64> {
        match self.record(path) {
            Some(r) => r.modified,
            None => None,
        }
    }

    /// A snapshot of the clock alone.
    pub fn new(now: Option<u64>) -> (s: Snapshot)
        ensures
            s.now == now,
            s.paths@.len() == 0,
    {
        Snapshot { now, paths: Vec::new() }
    }

    /// Adds what was seen of one more path. A path that is already on record keeps
    /// its first record.
    pub fn observe(&mut self, path: &str, exists: bool, has_git: bool, modified: Option<u64>)
        ensures
            final(self).now == old(self).now,
            final(self).paths@.len() == old(self).paths@.len() + 1,
            forall|p: Seq<char>|
                old(self).record(p) is Some ==> final(self).record(p) == old(self).record(p),
            old(self).record(path@) is None ==> {
                &&& final(self).path_exists(path@) == exists
                &&& final(self).git_exists(path@) == has_git
                &&& final(self).modified(path@) == modified
            },
            forall|p: Seq<char>|
                p != path@ && old(self).record(p) is None ==> final(self).record(p) is None,
    {
        let ghost before = *self;
        let state = PathState { path: path.to_owned(), exists, has_git, modified };
        self.paths.push(state);
        proof {
            let n = before.paths@.len() as int;
            assert forall|p: Seq<char>| before.record(p) is Some implies self.record(p)
                == before.record(p) by {
                let i = choose|i: int| before.first_record(p, i);
                assert(self.first_record(p, i));
                let j = choose|j: int| self.first_record(p, j);
                assert(i == j);
            }
            if before.record(path@) is None {
                assert(self.first_record(path@, n)) by {
                    assert forall|j: int| 0 <= j < n implies self.paths@[j].path@ != path@ by {
                        if self.paths@[j].path@ == path@ {
                            lemma_first_record_exists(before, path@, j);
                        }
                    }
                }
                let j = choose|j: int| self.first_record(path@, j);
                assert(j == n);
            }
            assert forall|p: Seq<char>| p != path@ && before.record(p) is None implies self.record(
                p,
            ) is None by {
                if exists|i: int| self.first_record(p, i) {
                    let i = choose|i: int| self.first_record(p, i);
                    assert(self.paths@[n].path@ == path@);
                    assert(i < n);
                    assert(before.paths@[i] == self.paths@[i]);
                    assert forall|j: int| 0 <= j < i implies before.paths@[j].path@ != p by {
                        assert(before.paths@[j] == self.paths@[j]);
                    }
                    assert(before.first_record(p, i));
                }
            }
        }
    }

    /// Finds the record that counts for `path`.
    pub fn lookup(&self, path: &str) -> (found: Option<&PathState>)
        ensures
            match found {
                Some(r) => self.record(path@) == Some(*r),
                None => self.record(path@) is None,
            },
    {
        let key = path.to_owned();
        let mut i: usize = 0;
        while i < self.paths.len()
            invariant
                i <= self.paths@.len(),
                key@ == path@,
                forall|j: int| 0 <= j < i ==> self.paths@[j].path@ != path@,
            decreases self.paths@.len() - i,
        {
            if self.paths[i].path == key {
                proof {
                    assert(self.first_record(path@, i as int));
                    let j = choose|j: int| self.first_record(path@, j);
                    assert(j == i);
                }
                return Some(&self.paths[i]);
            }
            i += 1;
        }
        None
    }
}

/// A path that occurs somewhere has a first record.
pub proof fn lemma_first_record_exists(s: Snapshot, path: Seq<char>, at: int)
    requires
        0 <= at < s.paths@.len(),
        s.paths@[at].path@ == path,
    ensures
        exists|i: int| s.first_record(path, i),
        s.record(path) is Some,
    decreases at,
{
    if forall|j: int| 0 <= j < at ==> s.paths@[j].path@ != path {
        assert(s.first_record(path, at));
    } else {
        let j = choose|j: int| 0 <= j < at && s.paths@[j].path@ == path;
        lemma_first_record_exists(s, path, j);
    }
}

} // verus!
