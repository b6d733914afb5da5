//! Git identity management: account records, SSH host aliases, repository
//! remote rewriting, security audits and encrypted identity vaults.

pub mod accounts;
pub mod audit;
pub mod cli;
pub mod command;
pub mod error;
pub mod git;
pub mod gpg;
pub mod models;
pub mod repos;
pub mod ssh;
pub mod storage;
pub mod text;
pub mod ui;
pub mod vault;

pub use accounts::{AddAccountRequest, RegisteredAccount, UpdateAccountRequest};
pub use audit::{AuditReport, FileAudit, KeyAudit};
pub use error::GitcoreError;
pub use git::convert_to_host;
pub use gpg::{GpgKey, list_gpg_keys};
pub use models::{
    Account, GitcoreConfig, Platform, Vault, VaultKey, is_valid_account_name, parse_platform,
    validate_accounts,
};
pub use repos::{
    CloneReport, CloneRequest, GitcorePaths, KeyDeletionReport, KeyProvisionReport,
    RemoteAddRequest, RemoteReport, RemoteSwitchRequest, RotationReport,
};
pub use storage::{BackupReport, RestoreReport};
pub use vault::{decrypt_vault, encrypt_vault};
