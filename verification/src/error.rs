//! The errors of the tool.

use vstd::prelude::*;

verus! {

/// What can go wrong anywhere in the tool. Where the cause lies outside the
/// library, the cause's own message is carried as text.
#[derive(Debug)]
pub enum RkitError {
    /// An input or output operation failed.
    IoError(String),
    /// The configuration's YAML could not be read or written.
    YamlError(String),
    /// JSON could not be read or written.
    JsonError(String),
    /// The configuration is unusable.
    ConfigError(String),
    /// A directory could not be created.
    DirectoryCreationError { path: String, source: String },
    /// A file could not be written.
    FileWriteError { path: String, source: String },
    /// A file could not be read.
    FileReadError { path: String, source: String },
    /// A path may not be accessed.
    PermissionError(String),
    /// A repository URL is not understood.
    InvalidRepoUrl(String),
    /// git failed.
    GitError(String),
    /// A shell command could not be run.
    ShellCommandError { command: String, source: String },
    /// No repository is at the path.
    RepoNotFoundError(String),
    /// The path does not name what it should.
    InvalidPathError(String),
    /// An environment variable is not set.
    EnvVarError(String),
}

/// A result whose error is [`RkitError`].
pub type RkitResult<T> = Result<T, RkitError>;

} // verus!
