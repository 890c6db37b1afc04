//! Paths as text: where the cache file lies, and what it means for one
//! directory to lie below another.

use crate::cache::CacheError;
use crate::error::RkitError;
use vstd::prelude::*;
use vstd::string::StringExecFns;

verus! {

/// Joins a relative `child` onto `base` with one separator between them; an
/// empty base gives the child alone.
pub open spec fn joined(base: Seq<char>, child: Seq<char>) -> Seq<char> {
    if base.len() == 0 {
        child
    } else if base.last() == '/' {
        base + child
    } else {
        base + seq!['/'] + child
    }
}

/// The cache file's place below the directory `config_dir`.
pub open spec fn cache_path_under(config_dir: Seq<char>) -> Seq<char> {
    joined(joined(config_dir, "rkit"@), "cache.json"@)
}

/// Joins a relative `child` onto `base`.
pub fn join_path(base: &str, child: &str) -> (path: String)
    ensures
        path@ == joined(base@, child@),
{
    let n = base.unicode_len();
    if n == 0 {
        child.to_owned()
    } else if base.get_char(n - 1) == '/' {
        base.to_owned().concat(child)
    } else {
        proof {
            reveal_strlit("/");
            assert("/"@ =~= seq!['/']);
        }
        base.to_owned().concat("/").concat(child)
    }
}

/// The cache file's place below the directory `config_dir`.
pub fn cache_file_in(config_dir: &str) -> (path: String)
    ensures
        path@ == cache_path_under(config_dir@),
{
    let dir = join_path(config_dir, "rkit");
    join_path(dir.as_str(), "cache.json")
}

/// The configuration directory below the home directory `home`.
pub open spec fn config_dir_under(home: Seq<char>) -> Seq<char> {
    joined(home, ".config"@)
}

/// The message of the error for a home directory that cannot be found.
pub open spec fn no_home_message() -> Seq<char> {
    "Failed to get home directory"@
}

/// The message of the error for a cache path that is taken by something other
/// than a file.
pub open spec fn not_a_file_message(path: Seq<char>) -> Seq<char> {
    "Cache path exists but is not a file: "@ + path
}

/// The home directory of the current user.
///
/// Calls `dirs::home_dir`, which reads the environment and the user database;
/// nothing is claimed of what it finds. A home directory that is not valid
/// Unicode is reported as none.
#[verifier::external_body]
fn home_dir() -> (home: Option<String>) {
    dirs::home_dir().and_then(|p| p.into_os_string().into_string().ok())
}

/// The cache file's default place for a user whose home directory is `home`:
/// `.config/rkit/cache.json` below it. Without a home directory there is none.
pub fn cache_path_for_home(home: Option<String>) -> (result: Result<String, CacheError>)
    ensures
        match home {
            Some(dir) => result matches Ok(path) && path@ == cache_path_under(
                config_dir_under(dir@),
            ),
            None => result matches Err(CacheError::DirectoryError(RkitError::ConfigError(msg)))
                && msg@ == no_home_message(),
        },
{
    match home {
        Some(dir) => {
            let config_dir = join_path(dir.as_str(), ".config");
            Ok(cache_file_in(config_dir.as_str()))
        },
        None => Err(
            CacheError::DirectoryError(
                RkitError::ConfigError("Failed to get home directory".to_owned()),
            ),
        ),
    }
}

/// The cache file's default place for the current user. Which home directory
/// is found depends on the environment; the path is always the default place
/// below some home directory, and the one failure is that none was found.
pub fn get_cache_path() -> (result: Result<String, CacheError>)
    ensures
        match result {
            Ok(path) => exists|home: Seq<char>|
                path@ == cache_path_under(#[trigger] config_dir_under(home)),
            Err(e) => e matches CacheError::DirectoryError(RkitError::ConfigError(msg)) && msg@
                == no_home_message(),
        },
{
    let home = home_dir();
    let ghost found = home;
    let result = cache_path_for_home(home);
    proof {
        if let Some(dir) = found {
            assert(result->Ok_0@ == cache_path_under(config_dir_under(dir@)));
        }
    }
    result
}

/// Whether the cache may be persisted at `path`, given what was seen there:
/// the place must be free or taken by a file.
pub fn validate_cache_path(path: &str, exists: bool, is_file: bool) -> (result: Result<
    (),
    CacheError,
>)
    ensures
        exists && !is_file ==> {
            &&& result matches Err(CacheError::DirectoryError(RkitError::ConfigError(msg)))
            &&& msg@ == not_a_file_message(path@)
        },
        !(exists && !is_file) ==> result is Ok,
{
    if exists && !is_file {
        let message = "Cache path exists but is not a file: ".to_owned().concat(path);
        return Err(CacheError::DirectoryError(RkitError::ConfigError(message)));
    }
    Ok(())
}

/// Where a cache is persisted: where its settings say; else at the default
/// place, if that could be had; else below the directory for temporary files.
pub fn resolve_cache_path(
    configured: Option<String>,
    default: Result<String, CacheError>,
    temp_dir: &str,
) -> (path: String)
    ensures
        path@ == match configured {
            Some(p) => p@,
            None => match default {
                Ok(p) => p@,
                Err(_) => cache_path_under(temp_dir@),
            },
        },
{
    match configured {
        Some(p) => p,
        None => match default {
            Ok(p) => p,
            Err(_) => cache_file_in(temp_dir),
        },
    }
}

} // verus!
