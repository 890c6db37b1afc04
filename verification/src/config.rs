//! The tool's configuration: where the projects live and how a repository is shown.

use crate::error::{RkitError, RkitResult};
use crate::text::{replace_all, replaced};
use vstd::prelude::*;
use vstd::string::StringExecFns;

verus! {

/// One command that shows something of a repository, with the heading it is
/// shown under. In the command, `{REPO}` stands for the repository's path.
#[derive(Debug)]
pub struct RViewCmd {
    pub command: String,
    pub label: String,
}

/// The configuration.
#[derive(Debug)]
pub struct Config {
    /// The directory below which the repositories live; may begin with `~`.
    pub project_root: String,
    /// The commands that show a repository, in their order, if any are set.
    pub rview: Option<Vec<RViewCmd>>,
}

/// Expands a `~` at the beginning of `input` into the home directory.
///
/// Calls `shellexpand::tilde`. The home directory comes from the environment,
/// so the result is not a function of the input. What holds whatever the
/// environment says: an input that does not begin with `~`, or in which the
/// `~` is followed by anything but a separator, comes back as it is; any other
/// comes back as it is or with the `~` replaced by some text.
#[verifier::external_body]
fn expand_tilde(input: &str) -> (expanded: String)
    ensures
        !(input@.len() > 0 && input@[0] == '~') ==> expanded@ == input@,
        input@.len() > 1 && input@[0] == '~' && input@[1] != '/' && input@[1] != '\\'
            ==> expanded@ == input@,
        expanded@ == input@ || exists|home: Seq<char>| expanded@ == home + input@.skip(1),
{
    shellexpand::tilde(input).into_owned()
}

impl Config {
    /// The configuration that is written where none exists yet: projects in
    /// `~/projects`, and a repository shown by its branch, its uncommitted
    /// changes and its README.
    pub fn initial() -> (config: Config)
        ensures
            config.project_root@ == "~/projects"@,
            config.rview matches Some(commands) && commands@.len() == 3
                && commands@[0].label@ == "Branch"@
                && commands@[0].command@ == "git -C {REPO} rev-parse --abbrev-ref HEAD"@
                && commands@[1].label@ == "Uncommitted Changes"@
                && commands@[1].command@ == "git -C {REPO} status --porcelain"@
                && commands@[2].label@ == "README"@
                && commands@[2].command@ == "cat {REPO}/README.md"@,
    {
        let mut commands: Vec<RViewCmd> = Vec::new();
        commands.push(
            RViewCmd {
                command: "git -C {REPO} rev-parse --abbrev-ref HEAD".to_owned(),
                label: "Branch".to_owned(),
            },
        );
        commands.push(
            RViewCmd {
                command: "git -C {REPO} status --porcelain".to_owned(),
                label: "Uncommitted Changes".to_owned(),
            },
        );
        commands.push(
            RViewCmd { command: "cat {REPO}/README.md".to_owned(), label: "README".to_owned() },
        );
        Config { project_root: "~/projects".to_owned(), rview: Some(commands) }
    }

    /// The project root with a leading `~` expanded into the home directory
    /// that the environment names. A root that does not begin with `~` is
    /// returned as it is.
    pub fn expand_project_root(&self) -> (result: RkitResult<String>)
        ensures
            result matches Ok(root) && {
                &&& !(self.project_root@.len() > 0 && self.project_root@[0] == '~') ==> root@
                    == self.project_root@
                &&& root@ == self.project_root@ || exists|home: Seq<char>|
                    root@ == home + self.project_root@.skip(1)
            },
    {
        Ok(expand_tilde(self.project_root.as_str()))
    }

    /// The project root on a system that names the user's directory in the
    /// variable `USERPROFILE`: the variable's value, followed by the root
    /// without any mention of the variable. `profile` is the variable's value,
    /// if it is set.
    pub fn expand_with_profile(&self, profile: Option<String>) -> (result: RkitResult<String>)
        ensures
            match profile {
                Some(dir) => result matches Ok(root) && root@ == dir@ + replaced(
                    self.project_root@,
                    "%USERPROFILE%"@,
                    ""@,
                ),
                None => result matches Err(RkitError::EnvVarError(name)) && name@
                    == "USERPROFILE"@,
            },
    {
        match profile {
            Some(dir) => {
                let rest = replace_all(self.project_root.as_str(), "%USERPROFILE%", "");
                Ok(dir.concat(rest.as_str()))
            },
            None => Err(RkitError::EnvVarError("USERPROFILE".to_owned())),
        }
    }
}

} // verus!
