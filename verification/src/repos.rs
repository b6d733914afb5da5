//! Repository-level decisions: where a clone goes, and the `git` arguments that attach a
//! remote and an identity to a repository.

use crate::accounts::{first_where, uses_remote};
use crate::command::fallback_failure_message;
use crate::error::{ErrorView, GitcoreError};
use crate::git::{convert_to_host, spec_convert_to_host};
use crate::models::{Account, GitcoreConfig};
use crate::storage::texts;
use crate::text::{
    chars_of, concat2, split, split_chars, string_of, strip_suffix_all, strip_suffix_all_chars,
    trim, trim_chars, views,
};
use std::path::PathBuf;
use vstd::prelude::*;
use vstd::string::*;

verus! {

/// Filesystem locations used by the library.
#[derive(Debug)]
pub struct GitcorePaths {
    /// Location of the persisted Gitcore JSON configuration.
    pub config_path: PathBuf,
    /// Directory containing managed SSH keys and the generated SSH config block.
    pub ssh_dir: PathBuf,
}

/// Input required to clone or attach a repository for an account.
#[derive(Debug)]
pub struct CloneRequest {
    /// Account selector, usually an account name.
    pub account_name: String,
    /// Source repository URL in HTTPS, SSH, or provider/path form.
    pub repo_url: String,
    /// Parent directory where the repository should be cloned or discovered.
    pub working_dir: PathBuf,
}

/// Outcome of an identity-aware clone operation.
#[derive(Debug)]
pub struct CloneReport {
    /// Resolved local repository path.
    pub repo_path: PathBuf,
    /// Final remote URL after host alias rewriting.
    pub remote_url: String,
    /// Git username applied to the repository config.
    pub username: String,
    /// Git email applied to the repository config.
    pub email: String,
    /// Whether an existing checkout was reused instead of cloning anew.
    pub reused_existing_repo: bool,
}

/// Input required to add or replace the origin remote for a repository.
#[derive(Debug)]
pub struct RemoteAddRequest {
    /// Account selector, usually an account name.
    pub account_name: String,
    /// Remote URL to rewrite and attach as `origin`.
    pub repo_url: String,
    /// Existing repository path to update.
    pub repo_path: PathBuf,
}

/// Input required to switch an existing repository to a different account.
#[derive(Debug)]
pub struct RemoteSwitchRequest {
    /// Account selector, usually an account name.
    pub account_name: String,
    /// Existing repository path whose `origin` should be rewritten.
    pub repo_path: PathBuf,
}

/// Outcome of a remote add or switch operation.
#[derive(Debug)]
pub struct RemoteReport {
    /// Repository path whose remote configuration was changed.
    pub repo_path: PathBuf,
    /// Final rewritten `origin` remote URL.
    pub remote_url: String,
    /// Git username applied to the repository config.
    pub username: String,
    /// Git email applied to the repository config.
    pub email: String,
}

/// Outcome of rotating an account SSH key.
#[derive(Debug)]
pub struct RotationReport {
    /// Account whose keypair was rotated.
    pub account: Account,
    /// Deleted old key paths before regeneration.
    pub deleted_paths: Vec<PathBuf>,
    /// Newly generated public key content to upload to the provider.
    pub public_key: String,
}

/// Outcome of generating a managed SSH key before account registration.
#[derive(Debug, Clone)]
pub struct KeyProvisionReport {
    /// Filename of the managed private key.
    pub key_path: String,
    /// Public key content to upload to the provider.
    pub public_key: String,
}

/// Outcome of deleting managed SSH key files for an account.
#[derive(Debug)]
pub struct KeyDeletionReport {
    /// Paths deleted from the SSH directory.
    pub deleted_paths: Vec<PathBuf>,
}

/// How `origin` was attached to a repository.
#[derive(Debug, Clone, Copy, PartialEq, Eq, Structural)]
pub enum GitRemoteMutation {
    /// `git remote add origin` succeeded.
    Added,
    /// The remote existed, and `git remote set-url origin` replaced its URL.
    Updated,
}

/// What cloning an account's repository into a working directory does.
#[derive(Debug)]
pub enum CloneAction {
    /// The target directory does not exist: clone the rewritten URL into the working
    /// directory.
    Clone { remote_url: String },
    /// The target is an existing repository: reuse it in place and attach the rewritten
    /// URL as `origin`.
    ReuseExisting { remote_url: String },
}

/// Decides how to clone `repo_url` for `account` into the target directory `repo_path`:
/// clone when the target does not exist, reuse it when it is a Git repository, and
/// refuse a target that exists but is not one. The remote URL goes through the
/// account's host alias.
pub fn plan_clone(
    account: &Account,
    repo_url: &str,
    repo_path: PathBuf,
    target_exists: bool,
    target_is_repository: bool,
) -> (r: Result<CloneAction, GitcoreError>)
    ensures
        match r {
            Ok(CloneAction::Clone { remote_url }) => !target_exists && remote_url@
                == spec_convert_to_host(repo_url@, account.host_alias@),
            Ok(CloneAction::ReuseExisting { remote_url }) => target_exists && target_is_repository
                && remote_url@ == spec_convert_to_host(repo_url@, account.host_alias@),
            Err(e) => target_exists && !target_is_repository && e@ == ErrorView::NotGitRepository(
                repo_path,
            ),
        },
{
    if !target_exists {
        Ok(CloneAction::Clone { remote_url: convert_to_host(repo_url, account.host_alias.as_str()) })
    } else if target_is_repository {
        Ok(
            CloneAction::ReuseExisting {
                remote_url: convert_to_host(repo_url, account.host_alias.as_str()),
            },
        )
    } else {
        Err(GitcoreError::NotGitRepository(repo_path))
    }
}

/// Decides the `origin` URL for adding `repo_url` to the repository at `repo_path` for
/// `account`: the URL through the account's alias, or `NotGitRepository` when the path is
/// not a repository.
pub fn plan_add_remote(account: &Account, repo_url: &str, repo_path: PathBuf, is_repository: bool) -> (r:
    Result<String, GitcoreError>)
    ensures
        match r {
            Ok(url) => is_repository && url@ == spec_convert_to_host(repo_url@, account.host_alias@),
            Err(e) => !is_repository && e@ == ErrorView::NotGitRepository(repo_path),
        },
{
    if is_repository {
        Ok(convert_to_host(repo_url, account.host_alias.as_str()))
    } else {
        Err(GitcoreError::NotGitRepository(repo_path))
    }
}

/// Decides the new `origin` URL when switching the repository at `repo_path` to
/// `account`: its current `origin` rewritten through the account's alias;
/// `NotGitRepository` when the path is not a repository, `MissingOriginRemote` when its
/// `origin` could not be read.
pub fn plan_switch_remote(
    account: &Account,
    repo_path: PathBuf,
    is_repository: bool,
    origin: Option<String>,
) -> (r: Result<String, GitcoreError>)
    ensures
        match r {
            Ok(url) => is_repository && origin is Some && url@ == spec_convert_to_host(
                origin->0@,
                account.host_alias@,
            ),
            Err(e) => if !is_repository {
                e@ == ErrorView::NotGitRepository(repo_path)
            } else {
                origin is None && e@ == ErrorView::MissingOriginRemote(repo_path)
            },
        },
{
    if !is_repository {
        return Err(GitcoreError::NotGitRepository(repo_path));
    }
    match origin {
        Some(o) => Ok(convert_to_host(o.as_str(), account.host_alias.as_str())),
        None => Err(GitcoreError::MissingOriginRemote(repo_path)),
    }
}

/// Decides which account the repository at `repo_path` uses: `NotGitRepository` when the
/// path is not a repository, none when its `origin` could not be read, and otherwise the
/// first account whose alias the `origin` URL goes through.
pub fn detect_account(
    config: &GitcoreConfig,
    repo_path: PathBuf,
    is_repository: bool,
    origin: Option<String>,
) -> (r: Result<Option<Account>, GitcoreError>)
    ensures
        match r {
            Ok(found) => is_repository && match origin {
                None => found is None,
                Some(o) => match first_where(config.accounts@, uses_remote(o@)) {
                    Some(i) => found == Some(config.accounts@[i]),
                    None => found is None,
                },
            },
            Err(e) => !is_repository && e@ == ErrorView::NotGitRepository(repo_path),
        },
{
    if !is_repository {
        return Err(GitcoreError::NotGitRepository(repo_path));
    }
    match origin {
        Some(o) => Ok(config.account_for_remote(o.as_str())),
        None => Ok(None),
    }
}

/// Decides how attaching `origin` ended: `git remote add` succeeded (`Added`); or it
/// failed and the `set-url` fallback, tried next, succeeded (`Updated`) or failed too,
/// reported with both messages.
pub fn attach_outcome(add_result: Result<(), String>, set_result: Option<Result<(), String>>) -> (r:
    Result<GitRemoteMutation, String>)
    requires
        add_result is Err ==> set_result is Some,
    ensures
        add_result is Ok ==> r == Ok::<GitRemoteMutation, String>(GitRemoteMutation::Added),
        add_result is Err && set_result == Some(Ok::<(), String>(())) ==> r == Ok::<
            GitRemoteMutation,
            String,
        >(GitRemoteMutation::Updated),
        add_result matches Err(a) ==> (set_result matches Some(Err(s)) ==> (r matches Err(m)
            && m@ == a@ + "; fallback set-url also failed: "@ + s@)),
{
    match add_result {
        Ok(()) => Ok(GitRemoteMutation::Added),
        Err(a) => match set_result {
            Some(Ok(())) => Ok(GitRemoteMutation::Updated),
            Some(Err(s)) => Err(fallback_failure_message(a.as_str(), s.as_str())),
            None => Err(a),
        },
    }
}

/// The last segment that is not empty, if any.
pub open spec fn last_non_empty(segs: Seq<Seq<char>>) -> Option<Seq<char>>
    decreases segs.len(),
{
    if segs.len() == 0 {
        None
    } else if segs.last().len() > 0 {
        Some(segs.last())
    } else {
        last_non_empty(segs.drop_last())
    }
}

/// The directory a clone of `url` goes into: the last non-blank `/`-segment, trimmed and
/// without trailing `.git` suffixes; `repo` when that leaves nothing.
pub open spec fn repo_dir_name(url: Seq<char>) -> Seq<char> {
    match last_non_empty(split(url, '/').map_values(|s: Seq<char>| trim(s))) {
        Some(seg) => {
            let name = strip_suffix_all(seg, ".git"@);
            if name.len() > 0 {
                name
            } else {
                "repo"@
            }
        },
        None => "repo"@,
    }
}

/// The name of the directory that a clone of `repo_url` creates inside the working directory.
pub fn repository_dir_name(repo_url: &str) -> (r: String)
    ensures
        r@ == repo_dir_name(repo_url@),
{
    let parts = split_chars(&chars_of(repo_url), '/');
    let ghost segs = views(parts@).map_values(|s: Seq<char>| trim(s));
    let mut last: Option<Vec<char>> = None;
    let mut i: usize = 0;
    while i < parts.len()
        invariant
            i <= parts@.len(),
            segs == views(parts@).map_values(|s: Seq<char>| trim(s)),
            match last {
                Some(v) => last_non_empty(segs.subrange(0, i as int)) == Some(v@),
                None => last_non_empty(segs.subrange(0, i as int)) is None,
            },
        decreases parts@.len() - i,
    {
        assert(segs.subrange(0, i + 1).drop_last() =~= segs.subrange(0, i as int));
        let t = trim_chars(&parts[i]);
        if t.len() > 0 {
            last = Some(t);
        }
        i = i + 1;
    }
    assert(segs.subrange(0, parts@.len() as int) =~= segs);
    match last {
        Some(seg) => {
            let name = strip_suffix_all_chars(&seg, &chars_of(".git"));
            if name.len() > 0 {
                string_of(&name)
            } else {
                String::from_str("repo")
            }
        },
        None => String::from_str("repo"),
    }
}

/// The file name of an account's public key: `{key_path}.pub`.
pub fn public_key_name(key_path: &str) -> (r: String)
    ensures
        r@ == key_path@ + ".pub"@,
{
    concat2(key_path, ".pub")
}

/// `git -C {path} {args...}`: the arguments that run a git subcommand in a directory.
pub fn git_in(path: &str, args: &[&str]) -> (r: Vec<String>)
    ensures
        texts(r@) == seq!["-C"@, path@] + args@.map_values(|a: &str| a@),
{
    let mut r: Vec<String> = Vec::new();
    r.push(String::from_str("-C"));
    r.push(String::from_str(path));
    let mut i: usize = 0;
    while i < args.len()
        invariant
            i <= args@.len(),
            texts(r@) == seq!["-C"@, path@] + args@.subrange(0, i as int).map_values(|a: &str| a@),
        decreases args@.len() - i,
    {
        let ghost before = texts(r@);
        r.push(String::from_str(args[i]));
        assert(texts(r@) =~= before.push(args@[i as int]@));
        assert(args@.subrange(0, i + 1).map_values(|a: &str| a@) =~= args@.subrange(
            0,
            i as int,
        ).map_values(|a: &str| a@).push(args@[i as int]@));
        i = i + 1;
    }
    assert(args@.subrange(0, args@.len() as int) =~= args@);
    r
}

fn config_args(key: &str, value: &str) -> (r: Vec<String>)
    ensures
        texts(r@) == seq!["config"@, key@, value@],
{
    let mut r: Vec<String> = Vec::new();
    r.push(String::from_str("config"));
    r.push(String::from_str(key));
    r.push(String::from_str(value));
    assert(texts(r@) =~= seq!["config"@, key@, value@]);
    r
}

/// The `git config` commands that give a repository an account's identity: author name
/// and email, and, with a GPG key, the signing key and commit signing.
pub open spec fn identity_commands(username: Seq<char>, email: Seq<char>, gpg_key_id: Option<
    Seq<char>,
>) -> Seq<Seq<Seq<char>>> {
    let base = seq![
        seq!["config"@, "user.name"@, username],
        seq!["config"@, "user.email"@, email],
    ];
    match gpg_key_id {
        Some(k) => base + seq![
            seq!["config"@, "user.signingkey"@, k],
            seq!["config"@, "commit.gpgsign"@, "true"@],
        ],
        None => base,
    }
}

/// The `git config` argument lists that apply an account's identity to a repository.
pub fn identity_config_args(account: &Account) -> (r: Vec<Vec<String>>)
    ensures
        r@.map_values(|c: Vec<String>| texts(c@)) == identity_commands(
            account.username@,
            account.email@,
            match account.gpg_key_id {
                Some(k) => Some(k@),
                None => None,
            },
        ),
{
    let mut r: Vec<Vec<String>> = Vec::new();
    r.push(config_args("user.name", account.username.as_str()));
    r.push(config_args("user.email", account.email.as_str()));
    if let Some(k) = &account.gpg_key_id {
        r.push(config_args("user.signingkey", k.as_str()));
        r.push(config_args("commit.gpgsign", "true"));
    }
    assert(r@.map_values(|c: Vec<String>| texts(c@)) =~= identity_commands(
        account.username@,
        account.email@,
        match account.gpg_key_id {
            Some(k) => Some(k@),
            None => None,
        },
    ));
    r
}

/// Every account's identity sets both the author name and the author email, with or
/// without a GPG key; a GPG key adds exactly the signing key and commit signing, and
/// without one nothing else is set.
pub proof fn lemma_identity_sets_author(username: Seq<char>, email: Seq<char>, gpg_key_id: Option<Seq<char>>)
    ensures
        identity_commands(username, email, gpg_key_id).contains(seq!["config"@, "user.name"@, username]),
        identity_commands(username, email, gpg_key_id).contains(seq!["config"@, "user.email"@, email]),
        gpg_key_id is None ==> identity_commands(username, email, gpg_key_id).len() == 2,
        gpg_key_id matches Some(k) ==> {
            &&& identity_commands(username, email, gpg_key_id).len() == 4
            &&& identity_commands(username, email, gpg_key_id).contains(
                seq!["config"@, "user.signingkey"@, k],
            )
            &&& identity_commands(username, email, gpg_key_id).contains(
                seq!["config"@, "commit.gpgsign"@, "true"@],
            )
        },
{
    let c = identity_commands(username, email, gpg_key_id);
    assert(c[0] == seq!["config"@, "user.name"@, username]);
    assert(c[1] == seq!["config"@, "user.email"@, email]);
    if let Some(k) = gpg_key_id {
        assert(c[2] == seq!["config"@, "user.signingkey"@, k]);
        assert(c[3] == seq!["config"@, "commit.gpgsign"@, "true"@]);
    }
}

} // verus!
