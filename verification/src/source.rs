//! Repository source detection from the git remote.

use vstd::prelude::*;
use crate::error::AppError;
use crate::text::{concat, opt_view, owned, strip_prefix, strip_prefix_str, trim, trim_end_matches_str, trim_end_str, trim_str};

verus! {

/// The `owner/repo` part of a GitHub remote URL, in SSH or HTTPS form, with
/// every trailing `.git` removed.
pub open spec fn github_repo_of(url: Seq<char>) -> Option<Seq<char>> {
    match strip_prefix(url, "git@github.com:"@) {
        Some(rest) => Some(trim_end_str(rest, ".git"@)),
        None => match strip_prefix(url, "https://github.com/"@) {
            Some(rest) => Some(trim_end_str(rest, ".git"@)),
            None => None,
        },
    }
}

/// The session source name for a repository.
pub open spec fn source_name(repo: Seq<char>) -> Seq<char> {
    "sources/github/"@ + repo
}

/// The source that `detect_repository_source` chooses: the origin remote
/// when it names a GitHub repository, else the `GITHUB_REPOSITORY` value.
pub open spec fn detected_source(remote: Option<Seq<char>>, env_repo: Option<Seq<char>>) -> Option<
    Seq<char>,
> {
    match remote {
        Some(out) if github_repo_of(trim(out)) is Some => Some(
            source_name(github_repo_of(trim(out))->0),
        ),
        _ => match env_repo {
            Some(r) => Some(source_name(r)),
            None => None,
        },
    }
}

/// Parse a GitHub URL to extract `owner/repo`.
pub fn parse_github_url(url: &str) -> (r: Option<String>)
    ensures
        r matches Some(x) ==> github_repo_of(url@) == Some(x@),
        r is None ==> github_repo_of(url@) is None,
{
    if let Some(rest) = strip_prefix_str(url, "git@github.com:") {
        let repo = trim_end_matches_str(rest, ".git");
        return Some(owned(repo));
    }
    if let Some(rest) = strip_prefix_str(url, "https://github.com/") {
        let repo = trim_end_matches_str(rest, ".git");
        return Some(owned(repo));
    }
    None
}

/// Decide the repository source for session dispatch.
///
/// `remote_url` is the output of `git remote get-url origin` when that
/// command succeeded; `env_repository` is `GITHUB_REPOSITORY` when set.
pub fn detect_repository_source(remote_url: Option<&str>, env_repository: Option<&str>) -> (r:
    Result<String, AppError>)
    ensures
        r matches Ok(s) ==> detected_source(
            opt_view(remote_url),
            opt_view(env_repository),
        ) == Some(s@),
        r is Err ==> detected_source(opt_view(remote_url), opt_view(env_repository))
            is None && r == Err::<String, AppError>(AppError::RepositoryDetectionFailed),
{
    if let Some(out) = remote_url {
        if let Some(repo) = parse_github_url(trim_str(out)) {
            return Ok(concat("sources/github/", repo.as_str()));
        }
    }
    if let Some(repo) = env_repository {
        return Ok(concat("sources/github/", repo));
    }
    Err(AppError::RepositoryDetectionFailed)
}

/// The SSH and HTTPS remote forms of one repository path name the same
/// repository.
pub proof fn lemma_ssh_and_https_agree(path: Seq<char>)
    ensures
        github_repo_of("git@github.com:"@ + path) == github_repo_of("https://github.com/"@ + path),
        github_repo_of("git@github.com:"@ + path) == Some(trim_end_str(path, ".git"@)),
{
    reveal_strlit("git@github.com:");
    reveal_strlit("https://github.com/");
    let ssh = "git@github.com:"@ + path;
    let https = "https://github.com/"@ + path;
    assert(ssh.subrange(0, 15) =~= "git@github.com:"@);
    assert(ssh.subrange(15, ssh.len() as int) =~= path);
    assert(https.subrange(0, 19) =~= "https://github.com/"@);
    assert(https.subrange(19, https.len() as int) =~= path);
    assert(https.subrange(0, 15) != "git@github.com:"@) by {
        assert(https.subrange(0, 15)[0] == 'h');
    }
}

} // verus!
