//! Taking a repository URL apart into domain, organization and repository.
//!
//! Two forms are understood: web URLs, `https://host/org/repo`, which the
//! `url` crate parses, and the form that ssh uses, `user@host:org/repo`.

use crate::error::{RkitError, RkitResult};
use crate::paths::{join_path, joined};
use crate::text::{
    chars_of, ends_with_at, find_first, find_first_between, find_last, find_last_from,
    starts_with, views,
};
use vstd::prelude::*;
use vstd::string::{StrSliceExecFns, StringExecFns};

verus! {

/// The parts of a repository URL that say where the clone goes.
#[derive(Debug)]
pub struct ParsedRepoUrl {
    pub domain: String,
    pub org: String,
    pub repo: String,
}

/// The parts of a repository URL as mathematical values.
pub struct RepoView {
    pub domain: Seq<char>,
    pub org: Seq<char>,
    pub repo: Seq<char>,
}

impl View for ParsedRepoUrl {
    type V = RepoView;

    open spec fn view(&self) -> RepoView {
        RepoView { domain: self.domain@, org: self.org@, repo: self.repo@ }
    }
}

/// The result says what `expected` says: the same parts, or an invalid-URL
/// error with the same message.
pub open spec fn describes(
    result: RkitResult<ParsedRepoUrl>,
    expected: Result<RepoView, Seq<char>>,
) -> bool {
    match expected {
        Ok(parts) => result matches Ok(parsed) && parsed@ == parts,
        Err(message) => result matches Err(RkitError::InvalidRepoUrl(msg)) && msg@ == message,
    }
}

/// The name without any `.git` at its end, however many there are.
pub open spec fn without_git_suffix(name: Seq<char>) -> Seq<char>
    decreases name.len(),
{
    if ".git"@.len() > 0 && ".git"@.is_suffix_of(name) {
        without_git_suffix(name.take(name.len() - ".git"@.len()))
    } else {
        name
    }
}

/// Cuts every `.git` off the end of a repository name.
pub fn trim_git_suffix(repo: &str) -> (trimmed: &str)
    ensures
        trimmed@ == without_git_suffix(repo@),
{
    let chars = chars_of(repo);
    let suffix = chars_of(".git");
    proof {
        reveal_strlit(".git");
        assert(chars@.take(chars@.len() as int) =~= chars@);
    }
    let mut n: usize = chars.len();
    while ends_with_at(&chars, n, &suffix)
        invariant
            n <= chars@.len(),
            chars@ == repo@,
            suffix@ == ".git"@,
            ".git"@.len() == 4,
            without_git_suffix(repo@) == without_git_suffix(chars@.take(n as int)),
        decreases n,
    {
        proof {
            assert(chars@.take(n as int).take(n - 4) =~= chars@.take(n - 4));
        }
        n -= 4;
    }
    proof {
        assert(repo@.subrange(0, n as int) =~= chars@.take(n as int));
    }
    repo.substring_char(0, n)
}

/// What the ssh form `user@host:org/repo` says.
///
/// The last `:` parts the host from the path and must follow the first `@`.
/// The host is what stands between the two, up to a further `:` if there is
/// one (a port). The path must hold exactly one `/`, between the organization
/// and the repository.
pub open spec fn ssh_repo(url: Seq<char>) -> Result<RepoView, Seq<char>> {
    match url.index_of_last(':') {
        None => Err("Invalid SSH URL format (no path separator)"@),
        Some(colon) => match url.index_of_first('@') {
            None => Err("Invalid SSH URL format (no @ symbol)"@),
            Some(at) => if at > colon {
                Err("Invalid SSH URL format (no path separator)"@)
            } else {
                let host = url.subrange(at + 1, colon);
                let path = url.subrange(colon + 1, url.len() as int);
                match path.index_of_first('/') {
                    Some(slash) => if path.index_of_last('/') == Some(slash) {
                        Ok(
                            RepoView {
                                domain: match host.index_of_first(':') {
                                    Some(port) => host.subrange(0, port),
                                    None => host,
                                },
                                org: path.subrange(0, slash),
                                repo: without_git_suffix(
                                    path.subrange(slash + 1, path.len() as int),
                                ),
                            },
                        )
                    } else {
                        Err("SSH URL must contain organization and repository"@)
                    },
                    None => Err("SSH URL must contain organization and repository"@),
                }
            },
        },
    }
}

/// Takes apart a URL of the ssh form.
pub fn parse_ssh_url(url: &str) -> (result: RkitResult<ParsedRepoUrl>)
    ensures
        describes(result, ssh_repo(url@)),
{
    let chars = chars_of(url);
    let colon = match find_last(&chars, ':') {
        Some(i) => i,
        None => {
            return Err(
                RkitError::InvalidRepoUrl("Invalid SSH URL format (no path separator)".to_owned()),
            );
        },
    };
    let at = match find_first(&chars, '@') {
        Some(i) => i,
        None => {
            return Err(
                RkitError::InvalidRepoUrl("Invalid SSH URL format (no @ symbol)".to_owned()),
            );
        },
    };
    proof {
        chars@.index_of_last_ensures(':');
        chars@.index_of_first_ensures('@');
    }
    if at > colon {
        return Err(
            RkitError::InvalidRepoUrl("Invalid SSH URL format (no path separator)".to_owned()),
        );
    }
    let n = chars.len();
    let ghost host = url@.subrange(at + 1, colon as int);
    let ghost path = url@.subrange(colon + 1, n as int);
    let port = find_first_between(&chars, ':', at + 1, colon);
    let slash_found = find_first_between(&chars, '/', colon + 1, n);
    proof {
        host.index_of_first_ensures(':');
        path.index_of_first_ensures('/');
    }
    let host_end = match port {
        Some(port) => at + 1 + port,
        None => colon,
    };
    let slash = match slash_found {
        Some(i) => i,
        None => {
            return Err(
                RkitError::InvalidRepoUrl(
                    "SSH URL must contain organization and repository".to_owned(),
                ),
            );
        },
    };
    if find_last_from(&chars, '/', colon + 1) != Some(slash) {
        return Err(
            RkitError::InvalidRepoUrl(
                "SSH URL must contain organization and repository".to_owned(),
            ),
        );
    }
    proof {
        assert(url@.subrange(at + 1, host_end as int) =~= match host.index_of_first(':') {
            Some(port) => host.subrange(0, port),
            None => host,
        });
        assert(url@.subrange(colon + 1, colon + 1 + slash) =~= path.subrange(0, slash as int));
        assert(url@.subrange(colon + 1 + slash + 1, n as int) =~= path.subrange(
            slash + 1,
            path.len() as int,
        ));
    }
    let domain = url.substring_char(at + 1, host_end).to_owned();
    let org = url.substring_char(colon + 1, colon + 1 + slash).to_owned();
    let repo = trim_git_suffix(url.substring_char(colon + 1 + slash + 1, n)).to_owned();
    Ok(ParsedRepoUrl { domain, org, repo })
}

/// What the `url` crate makes of a URL, as far as cloning needs it.
#[derive(Debug)]
pub struct UrlParts {
    /// The host, where the URL has one.
    pub host: Option<String>,
    /// The segments of the path, where the URL can have a path of segments.
    pub segments: Option<Vec<String>>,
}

/// The parts of a parsed URL as mathematical values.
pub struct UrlView {
    pub host: Option<Seq<char>>,
    pub segments: Option<Seq<Seq<char>>>,
}

impl View for UrlParts {
    type V = UrlView;

    open spec fn view(&self) -> UrlView {
        UrlView {
            host: match self.host {
                Some(h) => Some(h@),
                None => None,
            },
            segments: match self.segments {
                Some(s) => Some(views(s@)),
                None => None,
            },
        }
    }
}

/// The outcome of parsing as mathematical values: the parts, or the parser's
/// message.
pub open spec fn outcome_view(outcome: Result<UrlParts, String>) -> Result<UrlView, Seq<char>> {
    match outcome {
        Ok(parts) => Ok(parts@),
        Err(message) => Err(message@),
    }
}

/// What `url::Url::parse` makes of `input`: the host and the path segments of
/// the URL it yields, as `host_str` and `path_segments` give them, or the
/// message of the error it returns.
pub uninterp spec fn parsed_url(input: Seq<char>) -> Result<UrlView, Seq<char>>;

/// Parses `input` as an absolute URL.
///
/// Calls `url::Url::parse` and reads the result through `Url::host_str` and
/// `Url::path_segments`; an error is given as the text that it displays as.
/// The parser works on its input alone, so what it yields is a function of the
/// input, named `parsed_url`. Nothing more is claimed of it.
#[verifier::external_body]
fn parse_url(input: &str) -> (outcome: Result<UrlParts, String>)
    ensures
        outcome_view(outcome) == parsed_url(input@),
{
    match url::Url::parse(input) {
        Ok(parsed) => Ok(
            UrlParts {
                host: parsed.host_str().map(|h| h.to_string()),
                segments: parsed.path_segments().map(|s| s.map(|p| p.to_string()).collect()),
            },
        ),
        Err(e) => Err(e.to_string()),
    }
}

/// What a parsed web URL says. `label` names the kind of URL in the messages.
///
/// The URL must have parsed, must have a host, and must have a path of at
/// least two segments: the organization and the repository.
pub open spec fn web_repo(parsed: Result<UrlView, Seq<char>>, label: Seq<char>) -> Result<
    RepoView,
    Seq<char>,
> {
    match parsed {
        Err(message) => Err("Failed to parse "@ + label + ": "@ + message),
        Ok(parts) => match parts.host {
            None => Err("No domain found in "@ + label),
            Some(host) => match parts.segments {
                None => Err("No path segments in "@ + label),
                Some(segments) => if segments.len() < 2 {
                    Err(label + " must contain organization and repository"@)
                } else {
                    Ok(
                        RepoView {
                            domain: host,
                            org: segments[0],
                            repo: without_git_suffix(segments[1]),
                        },
                    )
                },
            },
        },
    }
}

/// Reads domain, organization and repository off a URL that was parsed
/// already, or says why it has none.
pub fn repo_from_parts(outcome: Result<UrlParts, String>, label: &str) -> (result: RkitResult<
    ParsedRepoUrl,
>)
    ensures
        describes(result, web_repo(outcome_view(outcome), label@)),
{
    let parts = match outcome {
        Ok(parts) => parts,
        Err(message) => {
            let text = "Failed to parse ".to_owned().concat(label).concat(": ").concat(
                message.as_str(),
            );
            return Err(RkitError::InvalidRepoUrl(text));
        },
    };
    let host = match parts.host {
        Some(host) => host,
        None => {
            return Err(RkitError::InvalidRepoUrl("No domain found in ".to_owned().concat(label)));
        },
    };
    let segments = match parts.segments {
        Some(segments) => segments,
        None => {
            return Err(
                RkitError::InvalidRepoUrl("No path segments in ".to_owned().concat(label)),
            );
        },
    };
    if segments.len() < 2 {
        return Err(
            RkitError::InvalidRepoUrl(
                label.to_owned().concat(" must contain organization and repository"),
            ),
        );
    }
    Ok(
        ParsedRepoUrl {
            domain: host,
            org: segments[0].clone(),
            repo: trim_git_suffix(segments[1].as_str()).to_owned(),
        },
    )
}

/// Takes apart a web URL. `label` names the kind of URL in the messages.
pub fn parse_web_url(url: &str, label: &str) -> (result: RkitResult<ParsedRepoUrl>)
    ensures
        describes(result, web_repo(parsed_url(url@), label@)),
{
    repo_from_parts(parse_url(url), label)
}

/// Takes apart an `http` or `https` URL.
pub fn parse_https_url(url: &str) -> (result: RkitResult<ParsedRepoUrl>)
    ensures
        describes(result, web_repo(parsed_url(url@), "HTTPS URL"@)),
{
    parse_web_url(url, "HTTPS URL")
}

/// Whether the URL begins as a web URL does.
pub open spec fn is_web_url(url: Seq<char>) -> bool {
    "http://"@.is_prefix_of(url) || "https://"@.is_prefix_of(url)
}

/// What a repository URL says: a URL that begins as a web URL is read as one,
/// any other that holds an `@` is read in the ssh form, and the rest is refused.
pub open spec fn repo_of(url: Seq<char>) -> Result<RepoView, Seq<char>> {
    if is_web_url(url) {
        web_repo(parsed_url(url), "HTTPS URL"@)
    } else if url.contains('@') {
        ssh_repo(url)
    } else {
        Err("URL must be either HTTPS or SSH format"@)
    }
}

/// Takes a repository URL apart.
pub fn parse_repo_url(url: &str) -> (result: RkitResult<ParsedRepoUrl>)
    ensures
        describes(result, repo_of(url@)),
{
    let chars = chars_of(url);
    let http = chars_of("http://");
    let https = chars_of("https://");
    if starts_with(&chars, &http) || starts_with(&chars, &https) {
        return parse_https_url(url);
    }
    proof {
        chars@.index_of_first_ensures('@');
    }
    if find_first(&chars, '@').is_some() {
        return parse_ssh_url(url);
    }
    Err(RkitError::InvalidRepoUrl("URL must be either HTTPS or SSH format".to_owned()))
}

/// Where a clone goes: below the project root, in the directory of its
/// domain, its organization and its repository.
pub open spec fn clone_target(project_root: Seq<char>, parts: RepoView) -> Seq<char> {
    joined(joined(joined(project_root, parts.domain), parts.org), parts.repo)
}

/// The directory that a repository is cloned into.
pub fn target_dir(project_root: &str, parsed: &ParsedRepoUrl) -> (path: String)
    ensures
        path@ == clone_target(project_root@, parsed@),
{
    let domain = join_path(project_root, parsed.domain.as_str());
    let org = join_path(domain.as_str(), parsed.org.as_str());
    join_path(org.as_str(), parsed.repo.as_str())
}

} // verus!
