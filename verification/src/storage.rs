//! Which key files go into a backup, and which files a restore writes.

use crate::error::{ErrorView, GitcoreError};
use crate::models::{Account, VaultKey};
use crate::text::{chars_of, concat2, ends_with};
use std::path::PathBuf;
use vstd::prelude::*;
use vstd::string::*;

verus! {

/// Permission mode written for a restored private key.
pub const RESTORED_PRIVATE_MODE: u32 = 0o600;

/// Permission mode written for a restored public key.
pub const RESTORED_PUBLIC_MODE: u32 = 0o644;

/// The key files found on disk for one account.
#[derive(Debug, Clone)]
pub struct KeyFiles {
    /// Content of the private key file, when it exists.
    pub private_content: Option<String>,
    /// Content of the public key file, when it exists.
    pub public_content: Option<String>,
}

/// The keys a backup embeds, and which configured keys were found.
#[derive(Debug, Clone)]
pub struct BackupKeySnapshot {
    /// Key material to embed in the vault.
    pub vault_keys: Vec<VaultKey>,
    /// Key files embedded.
    pub included_keys: Vec<String>,
    /// Configured key files whose private key was not found.
    pub missing_keys: Vec<String>,
}

/// One file that a restore writes.
#[derive(Debug, Clone)]
pub struct KeyFileWrite {
    /// File name inside the SSH directory.
    pub filename: String,
    /// Content to write.
    pub content: String,
    /// Permission mode to set after writing.
    pub mode: u32,
}

/// The files a restore writes and the key names it restores.
#[derive(Debug, Clone)]
pub struct RestorePlan {
    /// Files to write, in order.
    pub writes: Vec<KeyFileWrite>,
    /// Restored private key file names.
    pub filenames: Vec<String>,
}

/// Summary of a created encrypted backup.
#[derive(Debug)]
pub struct BackupReport {
    /// Path where the encrypted backup was written.
    pub output_path: PathBuf,
    /// Key files successfully embedded into the backup.
    pub included_keys: Vec<String>,
    /// Configured key files that were missing at backup time.
    pub missing_keys: Vec<String>,
}

/// Outcome of restoring persisted state from a vault or JSON file.
#[derive(Debug)]
pub struct RestoreReport {
    /// Number of accounts restored into config.
    pub restored_accounts: usize,
    /// Restored SSH private key filenames.
    pub restored_keys: Vec<String>,
    /// Input backup path used for the restore.
    pub source_path: PathBuf,
    /// Whether the restore originated from legacy JSON instead of an encrypted vault.
    pub legacy_json: bool,
}

/// The text views of a list of strings.
pub open spec fn texts(v: Seq<String>) -> Seq<Seq<char>> {
    v.map_values(|s: String| s@)
}

/// The text content of a vault key: `(filename, private, public)`.
pub open spec fn vault_key_view(k: VaultKey) -> (Seq<char>, Seq<char>, Seq<char>) {
    (k.filename@, k.private_content@, k.public_content@)
}

/// The vault keys a backup embeds: one per account whose private key was found, with
/// the public key's content or empty text when there is none.
pub open spec fn backup_vault_keys(accounts: Seq<Account>, found: Seq<KeyFiles>) -> Seq<
    (Seq<char>, Seq<char>, Seq<char>),
>
    decreases accounts.len(),
{
    if accounts.len() == 0 || found.len() != accounts.len() {
        Seq::empty()
    } else {
        let prev = backup_vault_keys(accounts.drop_last(), found.drop_last());
        match found.last().private_content {
            Some(p) => prev.push(
                (
                    accounts.last().key_path@,
                    p@,
                    match found.last().public_content {
                        Some(q) => q@,
                        None => Seq::empty(),
                    },
                ),
            ),
            None => prev,
        }
    }
}

/// The key names of the accounts whose private key was found (`present`) or not.
pub open spec fn backup_key_names(accounts: Seq<Account>, found: Seq<KeyFiles>, present: bool) -> Seq<
    Seq<char>,
>
    decreases accounts.len(),
{
    if accounts.len() == 0 || found.len() != accounts.len() {
        Seq::empty()
    } else {
        let prev = backup_key_names(accounts.drop_last(), found.drop_last(), present);
        if (found.last().private_content is Some) == present {
            prev.push(accounts.last().key_path@)
        } else {
            prev
        }
    }
}

/// Decides what a backup embeds from the key files found for each account, in order.
pub fn collect_backup_keys(accounts: &[Account], found: Vec<KeyFiles>) -> (r: BackupKeySnapshot)
    requires
        found@.len() == accounts@.len(),
    ensures
        r.vault_keys@.map_values(|k: VaultKey| vault_key_view(k)) == backup_vault_keys(
            accounts@,
            found@,
        ),
        texts(r.included_keys@) == backup_key_names(accounts@, found@, true),
        texts(r.missing_keys@) == backup_key_names(accounts@, found@, false),
{
    let mut vault_keys: Vec<VaultKey> = Vec::new();
    let mut included_keys: Vec<String> = Vec::new();
    let mut missing_keys: Vec<String> = Vec::new();
    let mut i: usize = 0;
    assert(vault_keys@.map_values(|k: VaultKey| vault_key_view(k)) =~= Seq::empty());
    assert(texts(included_keys@) =~= Seq::empty());
    assert(texts(missing_keys@) =~= Seq::empty());
    while i < accounts.len()
        invariant
            found@.len() == accounts@.len(),
            i <= accounts@.len(),
            vault_keys@.map_values(|k: VaultKey| vault_key_view(k)) == backup_vault_keys(
                accounts@.subrange(0, i as int),
                found@.subrange(0, i as int),
            ),
            texts(included_keys@) == backup_key_names(
                accounts@.subrange(0, i as int),
                found@.subrange(0, i as int),
                true,
            ),
            texts(missing_keys@) == backup_key_names(
                accounts@.subrange(0, i as int),
                found@.subrange(0, i as int),
                false,
            ),
        decreases accounts@.len() - i,
    {
        assert(accounts@.subrange(0, i + 1).drop_last() =~= accounts@.subrange(0, i as int));
        assert(found@.subrange(0, i + 1).drop_last() =~= found@.subrange(0, i as int));
        let account = &accounts[i];
        let files = &found[i];
        let ghost vk = vault_keys@.map_values(|k: VaultKey| vault_key_view(k));
        let ghost inc = texts(included_keys@);
        let ghost mis = texts(missing_keys@);
        match &files.private_content {
            Some(private_content) => {
                let public_content = match &files.public_content {
                    Some(p) => p.clone(),
                    None => String::new(),
                };
                vault_keys.push(
                    VaultKey {
                        filename: account.key_path.clone(),
                        private_content: private_content.clone(),
                        public_content,
                    },
                );
                included_keys.push(account.key_path.clone());
                assert(vault_keys@.map_values(|k: VaultKey| vault_key_view(k)) =~= vk.push(
                    vault_key_view(vault_keys@.last()),
                ));
                assert(texts(included_keys@) =~= inc.push(account.key_path@));
                assert(texts(missing_keys@) =~= mis);
            },
            None => {
                missing_keys.push(account.key_path.clone());
                assert(texts(missing_keys@) =~= mis.push(account.key_path@));
            },
        }
        i = i + 1;
    }
    assert(accounts@.subrange(0, i as int) =~= accounts@);
    assert(found@.subrange(0, i as int) =~= found@);
    BackupKeySnapshot { vault_keys, included_keys, missing_keys }
}

/// The text content of a file write: `(filename, content, mode)`.
pub open spec fn write_view(w: KeyFileWrite) -> (Seq<char>, Seq<char>, u32) {
    (w.filename@, w.content@, w.mode)
}

/// The files that restoring `keys` writes: each private key with mode `0o600`, then its
/// public key with mode `0o644` when the vault holds public key text.
pub open spec fn restore_writes(keys: Seq<VaultKey>) -> Seq<(Seq<char>, Seq<char>, u32)>
    decreases keys.len(),
{
    if keys.len() == 0 {
        Seq::empty()
    } else {
        let k = keys.last();
        let with_private = restore_writes(keys.drop_last()).push(
            (k.filename@, k.private_content@, RESTORED_PRIVATE_MODE),
        );
        if k.public_content@.len() > 0 {
            with_private.push((k.filename@ + ".pub"@, k.public_content@, RESTORED_PUBLIC_MODE))
        } else {
            with_private
        }
    }
}

/// Decides which files restoring `keys` writes, and which key names it restores.
pub fn restore_backup_keys(keys: &[VaultKey]) -> (r: RestorePlan)
    ensures
        r.writes@.map_values(|w: KeyFileWrite| write_view(w)) == restore_writes(keys@),
        texts(r.filenames@) == keys@.map_values(|k: VaultKey| k.filename@),
{
    let mut writes: Vec<KeyFileWrite> = Vec::new();
    let mut filenames: Vec<String> = Vec::new();
    let mut i: usize = 0;
    assert(writes@.map_values(|w: KeyFileWrite| write_view(w)) =~= Seq::empty());
    while i < keys.len()
        invariant
            i <= keys@.len(),
            writes@.map_values(|w: KeyFileWrite| write_view(w)) == restore_writes(
                keys@.subrange(0, i as int),
            ),
            texts(filenames@) == keys@.subrange(0, i as int).map_values(|k: VaultKey| k.filename@),
        decreases keys@.len() - i,
    {
        assert(keys@.subrange(0, i + 1).drop_last() =~= keys@.subrange(0, i as int));
        let k = &keys[i];
        let ghost wv = writes@.map_values(|w: KeyFileWrite| write_view(w));
        let ghost fv = texts(filenames@);
        writes.push(
            KeyFileWrite {
                filename: k.filename.clone(),
                content: k.private_content.clone(),
                mode: RESTORED_PRIVATE_MODE,
            },
        );
        let ghost wv2 = writes@.map_values(|w: KeyFileWrite| write_view(w));
        assert(wv2 =~= wv.push((k.filename@, k.private_content@, RESTORED_PRIVATE_MODE)));
        if k.public_content.as_str().unicode_len() > 0 {
            writes.push(
                KeyFileWrite {
                    filename: concat2(k.filename.as_str(), ".pub"),
                    content: k.public_content.clone(),
                    mode: RESTORED_PUBLIC_MODE,
                },
            );
            assert(writes@.map_values(|w: KeyFileWrite| write_view(w)) =~= wv2.push(
                (k.filename@ + ".pub"@, k.public_content@, RESTORED_PUBLIC_MODE),
            ));
        }
        filenames.push(k.filename.clone());
        assert(texts(filenames@) =~= fv.push(k.filename@));
        assert(keys@.subrange(0, i + 1).map_values(|k: VaultKey| k.filename@) =~= keys@.subrange(
            0,
            i as int,
        ).map_values(|k: VaultKey| k.filename@).push(k.filename@));
        i = i + 1;
    }
    assert(keys@.subrange(0, i as int) =~= keys@);
    RestorePlan { writes, filenames }
}

/// The files that restoring a backup of `accounts` writes back, given the key files found
/// at backup time: for each account whose private key was found, in order, the private key
/// under its key file name, then the public key under `{key file}.pub` when it was found
/// and is not empty.
pub open spec fn recovered_files(accounts: Seq<Account>, found: Seq<KeyFiles>) -> Seq<
    (Seq<char>, Seq<char>, u32),
>
    decreases accounts.len(),
{
    if accounts.len() == 0 || found.len() != accounts.len() {
        Seq::empty()
    } else {
        let prev = recovered_files(accounts.drop_last(), found.drop_last());
        let name = accounts.last().key_path@;
        match found.last().private_content {
            Some(p) => {
                let with_private = prev.push((name, p@, RESTORED_PRIVATE_MODE));
                match found.last().public_content {
                    Some(q) => if q@.len() > 0 {
                        with_private.push((name + ".pub"@, q@, RESTORED_PUBLIC_MODE))
                    } else {
                        with_private
                    },
                    None => with_private,
                }
            },
            None => prev,
        }
    }
}

/// Restoring the keys that a backup embedded writes each found private key back under
/// its key file name, and each found non-empty public key under `{key file}.pub`, in
/// account order; the keys it reports restored are the keys the backup reported included.
pub proof fn lemma_restore_of_backup(accounts: Seq<Account>, found: Seq<KeyFiles>, keys: Seq<VaultKey>)
    requires
        found.len() == accounts.len(),
        keys.map_values(|k: VaultKey| vault_key_view(k)) == backup_vault_keys(accounts, found),
    ensures
        restore_writes(keys) == recovered_files(accounts, found),
        keys.map_values(|k: VaultKey| k.filename@) == backup_key_names(accounts, found, true),
    decreases accounts.len(),
{
    if accounts.len() > 0 {
        let pa = accounts.drop_last();
        let pf = found.drop_last();
        let kv = keys.map_values(|k: VaultKey| vault_key_view(k));
        match found.last().private_content {
            Some(p) => {
                let prev = backup_vault_keys(pa, pf);
                assert(kv == prev.push(kv.last()));
                assert(kv.drop_last() =~= prev);
                let pk = keys.drop_last();
                assert(pk.map_values(|k: VaultKey| vault_key_view(k)) =~= kv.drop_last());
                lemma_restore_of_backup(pa, pf, pk);
                assert(vault_key_view(keys.last()) == kv.last());
                assert(keys.map_values(|k: VaultKey| k.filename@) =~= pk.map_values(
                    |k: VaultKey| k.filename@,
                ).push(keys.last().filename@));
            },
            None => {
                lemma_restore_of_backup(pa, pf, keys);
            },
        }
    } else {
        assert(keys.map_values(|k: VaultKey| vault_key_view(k)).len() == 0);
        assert(keys.len() == 0);
    }
}

/// A backup needs a non-empty password.
pub fn check_backup_password(password: &str) -> (r: Result<(), GitcoreError>)
    ensures
        r is Ok <==> password@.len() > 0,
        r matches Err(e) ==> e@ == ErrorView::EmptyPassword,
{
    if password.unicode_len() == 0 {
        Err(GitcoreError::EmptyPassword)
    } else {
        Ok(())
    }
}

/// A vault restore needs a password, and it must not be empty.
pub fn check_restore_password(password: Option<&str>) -> (r: Result<(), GitcoreError>)
    ensures
        r is Ok <==> (password matches Some(p) && p@.len() > 0),
        r matches Err(e) ==> e@ == ErrorView::EmptyPassword,
{
    match password {
        Some(p) => check_backup_password(p),
        None => Err(GitcoreError::EmptyPassword),
    }
}

/// A restore source whose name ends with `.json` is a legacy config-only export.
pub fn is_legacy_json(input_name: &str) -> (r: bool)
    ensures
        r == crate::text::is_suffix(".json"@, input_name@),
{
    ends_with(&chars_of(input_name), &chars_of(".json"))
}

} // verus!
