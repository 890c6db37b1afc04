//! Showing a repository: what is checked first, and what is run.

use crate::config::RViewCmd;
use crate::error::{RkitError, RkitResult};
use crate::text::{replace_all, replaced, split_words, views, whitespace_words};
use vstd::prelude::*;
use vstd::string::StringExecFns;

verus! {

/// The message for a directory that is no repository.
pub open spec fn not_a_repository_message(path: Seq<char>) -> Seq<char> {
    path + " is not a git repository"@
}

/// The message for a directory that may not be read.
pub open spec fn unreadable_message(path: Seq<char>) -> Seq<char> {
    "No permission to read directory: "@ + path
}

/// Whether the directory at `path` can be shown, given what was seen of it.
/// It must exist, hold a `.git` entry and be readable; the first of these
/// that fails decides the error.
pub fn check_repo(path: &str, exists: bool, has_git: bool, readable: bool) -> (result: RkitResult<
    (),
>)
    ensures
        !exists ==> (result matches Err(RkitError::RepoNotFoundError(p)) && p@ == path@),
        exists && !has_git ==> (result matches Err(RkitError::InvalidPathError(msg)) && msg@
            == not_a_repository_message(path@)),
        exists && has_git && !readable ==> (result matches Err(RkitError::PermissionError(msg))
            && msg@ == unreadable_message(path@)),
        exists && has_git && readable ==> result is Ok,
{
    if !exists {
        return Err(RkitError::RepoNotFoundError(path.to_owned()));
    }
    if !has_git {
        return Err(
            RkitError::InvalidPathError(path.to_owned().concat(" is not a git repository")),
        );
    }
    if !readable {
        return Err(
            RkitError::PermissionError(
                "No permission to read directory: ".to_owned().concat(path),
            ),
        );
    }
    Ok(())
}

/// One program to run, with its arguments and the heading it runs under.
#[derive(Debug)]
pub struct Invocation {
    pub label: String,
    pub program: String,
    pub args: Vec<String>,
}

/// The heading that a command runs under.
pub open spec fn heading(label: Seq<char>) -> Seq<char> {
    "=== "@ + label + " ==="@
}

/// The heading that a command runs under.
pub fn heading_line(label: &str) -> (line: String)
    ensures
        line@ == heading(label@),
{
    "=== ".to_owned().concat(label).concat(" ===")
}

/// The words of a command for the repository at `repo`: the command with the
/// path put in place of every `{REPO}`, split at whitespace.
pub open spec fn command_words(command: Seq<char>, repo: Seq<char>) -> Seq<Seq<char>> {
    whitespace_words(replaced(command, "{REPO}"@, repo))
}

/// Makes an invocation of the words of a command: the first word is the
/// program, the others are its arguments. No words, no invocation.
pub fn invocation_from_words(label: &str, words: Vec<String>) -> (invocation: Option<Invocation>)
    ensures
        words@.len() == 0 ==> invocation is None,
        words@.len() > 0 ==> (invocation matches Some(inv) && inv.label@ == label@ && inv.program@
            == words@[0]@ && views(inv.args@) == views(words@).skip(1)),
{
    if words.len() == 0 {
        return None;
    }
    let program = words[0].clone();
    let mut args: Vec<String> = Vec::new();
    let mut i: usize = 1;
    while i < words.len()
        invariant
            1 <= i <= words@.len(),
            args@.len() == i - 1,
            forall|j: int| 0 <= j < args@.len() ==> args@[j]@ == words@[j + 1]@,
        decreases words@.len() - i,
    {
        args.push(words[i].clone());
        i += 1;
    }
    proof {
        assert(views(args@) =~= views(words@).skip(1));
    }
    Some(Invocation { label: label.to_owned(), program, args })
}

/// What is run for one configured command on the repository at `repo`, if
/// anything: a command without words is left out.
pub fn plan_command(command: &RViewCmd, repo: &str) -> (invocation: Option<Invocation>)
    ensures
        command_words(command.command@, repo@).len() == 0 ==> invocation is None,
        command_words(command.command@, repo@).len() > 0 ==> (invocation matches Some(inv)
            && inv.label@ == command.label@ && inv.program@ == command_words(
            command.command@,
            repo@,
        )[0] && views(inv.args@) == command_words(command.command@, repo@).skip(1)),
{
    let text = replace_all(command.command.as_str(), "{REPO}", repo);
    let words = split_words(text.as_str());
    invocation_from_words(command.label.as_str(), words)
}

/// What is shown of a repository for which no commands are configured.
#[derive(Clone, Copy, Debug, PartialEq, Eq, Structural)]
pub enum Fallback {
    /// The README's text, under the heading `README`.
    Readme,
    /// The directory's listing, under the heading `Directory Listing`.
    Listing,
}

/// Chooses what is shown without commands: the README where there is one,
/// else the directory's listing.
pub fn fallback_view(readme_exists: bool) -> (fallback: Fallback)
    ensures
        fallback == if readme_exists {
            Fallback::Readme
        } else {
            Fallback::Listing
        },
{
    if readme_exists {
        Fallback::Readme
    } else {
        Fallback::Listing
    }
}

} // verus!
