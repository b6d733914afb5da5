//! The command-line surface: commands and their arguments.

use crate::text::{
    chars_of, concat2, copy_range, ends_with, find_char, first_index, is_prefix,
    is_suffix, lemma_first_index, starts_with, string_of,
};
use vstd::prelude::*;
use vstd::string::*;

verus! {

/// Parsed command line.
#[derive(Debug)]
pub struct Cli {
    /// The command to run.
    pub command: Commands,
}

/// Top-level commands.
#[derive(Debug)]
pub enum Commands {
    /// Add a new git account (creates SSH key + config); prompts for what is not given.
    Add { name: Option<String>, platform: Option<String> },
    /// List all configured accounts with usage instructions.
    List,
    /// Identify the active account in the current repository.
    Whoami,
    /// Clone a repo using a specific account (auto-sets git config).
    Clone { repo: Option<String> },
    /// Test SSH connection (use a host alias like github-work).
    Test { name: Option<String> },
    /// Manage git remotes for repositories.
    Remote { subcommand: RemoteCommands },
    /// Modify account metadata (email, GPG key) without re-registration.
    Update { name: Option<String> },
    /// Export the identity environment to an encrypted vault.
    Export { file: Option<String> },
    /// Restore an environment from a vault or a JSON export.
    Import { file: Option<String> },
    /// Remove an account (prompts if no name given).
    Remove { name: Option<String> },
    /// Run the security audit (file permissions, missing keys).
    Audit,
    /// Rotate the SSH key of an account.
    Rotate { name: Option<String> },
}

/// Subcommands of `remote`.
#[derive(Debug)]
pub enum RemoteCommands {
    /// Add a remote URL using a specific account.
    Add { repo_url: Option<String> },
    /// Switch the existing remote to a different account.
    Switch { account: Option<String> },
}

/// The host alias that a `git@alias:path` URL names: the text between `git@` and the
/// first `:` after it.
pub open spec fn spec_scp_alias(url: Seq<char>) -> Option<Seq<char>> {
    let rest = url.skip("git@"@.len() as int);
    if is_prefix("git@"@, url) && rest.contains(':') {
        Some(rest.take(first_index(rest, ':')))
    } else {
        None
    }
}

/// The host alias named by a `git@alias:path` URL, used to pick the account that the
/// URL already addresses.
pub fn scp_alias(url: &str) -> (r: Option<String>)
    ensures
        match r {
            Some(a) => spec_scp_alias(url@) == Some(a@),
            None => spec_scp_alias(url@) is None,
        },
{
    let cs = chars_of(url);
    let prefix = chars_of("git@");
    if !starts_with(&cs, &prefix) {
        return None;
    }
    let rest = copy_range(&cs, prefix.len(), cs.len());
    assert(rest@ =~= url@.skip("git@"@.len() as int));
    match find_char(&rest, ':') {
        Some(i) => {
            proof {
                lemma_first_index(rest@, ':', i as int);
            }
            let alias = copy_range(&rest, 0, i);
            assert(alias@ =~= rest@.take(i as int));
            Some(string_of(&alias))
        },
        None => None,
    }
}

/// The file an export writes: the name given, or `gitcore_backup.gitcore`, with
/// `.gitcore` appended when the name has no `.`.
pub open spec fn spec_backup_file_name(file: Option<Seq<char>>) -> Seq<char> {
    let f = match file {
        Some(f) => f,
        None => "gitcore_backup.gitcore"@,
    };
    if f.contains('.') {
        f
    } else {
        f + ".gitcore"@
    }
}

/// Chooses the file name of an export.
pub fn backup_file_name(file: Option<String>) -> (r: String)
    ensures
        r@ == spec_backup_file_name(
            match file {
                Some(f) => Some(f@),
                None => None,
            },
        ),
{
    let f = match file {
        Some(f) => f,
        None => String::from_str("gitcore_backup.gitcore"),
    };
    match find_char(&chars_of(f.as_str()), '.') {
        Some(i) => f,
        None => concat2(f.as_str(), ".gitcore"),
    }
}

/// Files that the restore picker offers: vaults (`.gitcore`) and legacy JSON exports.
pub fn is_backup_file_name(name: &str) -> (r: bool)
    ensures
        r == (is_suffix(".gitcore"@, name@) || is_suffix(".json"@, name@)),
{
    let cs = chars_of(name);
    ends_with(&cs, &chars_of(".gitcore")) || ends_with(&cs, &chars_of(".json"))
}

/// The name a restore tries next when the path typed does not exist: the same name
/// with `.gitcore` appended, for a name without `.`.
pub fn restore_name_with_extension(input: &str) -> (r: Option<String>)
    ensures
        match r {
            Some(s) => !input@.contains('.') && s@ == input@ + ".gitcore"@,
            None => input@.contains('.'),
        },
{
    match find_char(&chars_of(input), '.') {
        Some(_) => None,
        None => Some(concat2(input, ".gitcore")),
    }
}

} // verus!
