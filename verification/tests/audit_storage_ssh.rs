use gitcore::audit::{AuditReport, FileAudit, KeyAudit, format_octal};
use gitcore::command::{failure_detail, missing_executable_message};
use gitcore::repos::{git_in, identity_config_args, public_key_name};
use gitcore::ssh::{HostKeyStatus, SshConnectionState, classify_probe, host_key_status, managed_block, splice_block};
use gitcore::storage::{KeyFiles, collect_backup_keys, is_legacy_json, restore_backup_keys};
use gitcore::ui::{confirm, select_file, select_index};
use gitcore::{Account, Platform, VaultKey};
use std::path::PathBuf;

fn account(name: &str) -> Account {
    Account {
        name: name.to_string(),
        platform: Platform::Github,
        key_path: format!("id_ed25519_{name}"),
        host_alias: format!("github-{name}"),
        username: "tester".to_string(),
        email: "tester@example.com".to_string(),
        gpg_key_id: None,
    }
}

fn file(exists: bool, permissions: Option<u32>, expected: u32) -> FileAudit {
    FileAudit { path: PathBuf::from("/x"), exists, permissions, expected_permissions: expected }
}

#[test]
fn audit_reports_missing_private_keys() {
    let keys = vec![KeyAudit {
        account: account("work"),
        private_key: file(false, None, 0o600),
        public_key: file(false, None, 0o644),
    }];
    let report = AuditReport::from_audits(keys, file(true, Some(0o600), 0o600), file(true, Some(0o600), 0o600));
    assert_eq!(report.key_audits.len(), 1);
    assert_eq!(report.issues, vec!["SSH key missing: id_ed25519_work"]);
}

#[test]
fn audit_reports_incorrect_file_permissions() {
    let keys = vec![KeyAudit {
        account: account("work"),
        private_key: file(true, Some(0o777), 0o600),
        public_key: file(true, Some(0o755), 0o644),
    }];
    let report = AuditReport::from_audits(keys, file(false, None, 0o600), file(true, Some(0o777), 0o600));
    assert_eq!(
        report.issues,
        vec![
            "SSH private key 'id_ed25519_work' has insecure permissions (777, expected 600)",
            "SSH public key 'id_ed25519_work.pub' has insecure permissions (755, expected 644)",
            "SSH config file missing",
            "Gitcore config file has insecure permissions (777, expected 600)",
        ]
    );
    assert_eq!(format_octal(0), "0");
    assert_eq!(format_octal(8), "10");
    assert_eq!(format_octal(0o1777), "1777");
}

#[test]
fn backup_collects_found_keys_and_restore_skips_empty_public_keys() {
    let accounts = vec![account("work"), account("home")];
    let snapshot = collect_backup_keys(
        &accounts,
        vec![
            KeyFiles { private_content: Some("PRIVATE KEY".to_string()), public_content: None },
            KeyFiles { private_content: None, public_content: Some("PUB".to_string()) },
        ],
    );
    assert_eq!(snapshot.included_keys, vec!["id_ed25519_work"]);
    assert_eq!(snapshot.missing_keys, vec!["id_ed25519_home"]);
    assert_eq!(snapshot.vault_keys.len(), 1);
    assert_eq!(snapshot.vault_keys[0].public_content, "");

    let keys = vec![
        VaultKey { filename: "a".to_string(), private_content: "P".to_string(), public_content: "".to_string() },
        VaultKey { filename: "b".to_string(), private_content: "Q".to_string(), public_content: "R".to_string() },
    ];
    let plan = restore_backup_keys(&keys);
    assert_eq!(plan.filenames, vec!["a", "b"]);
    let writes: Vec<(String, String, u32)> =
        plan.writes.into_iter().map(|w| (w.filename, w.content, w.mode)).collect();
    assert_eq!(
        writes,
        vec![
            ("a".to_string(), "P".to_string(), 0o600),
            ("b".to_string(), "Q".to_string(), 0o600),
            ("b.pub".to_string(), "R".to_string(), 0o644),
        ]
    );
    assert!(is_legacy_json("/tmp/legacy-config.json"));
    assert!(!is_legacy_json("/tmp/backup.gitcore"));
}

#[test]
fn restoring_a_backup_writes_the_found_keys_back() {
    let accounts = vec![account("work"), account("home"), account("lab")];
    let snapshot = collect_backup_keys(
        &accounts,
        vec![
            KeyFiles { private_content: Some("W-PRIV".to_string()), public_content: Some("W-PUB".to_string()) },
            KeyFiles { private_content: None, public_content: Some("H-PUB".to_string()) },
            KeyFiles { private_content: Some("L-PRIV".to_string()), public_content: Some(String::new()) },
        ],
    );
    let plan = restore_backup_keys(&snapshot.vault_keys);
    let writes: Vec<(String, String, u32)> =
        plan.writes.into_iter().map(|w| (w.filename, w.content, w.mode)).collect();
    assert_eq!(
        writes,
        vec![
            ("id_ed25519_work".to_string(), "W-PRIV".to_string(), 0o600),
            ("id_ed25519_work.pub".to_string(), "W-PUB".to_string(), 0o644),
            ("id_ed25519_lab".to_string(), "L-PRIV".to_string(), 0o600),
        ]
    );
    assert_eq!(plan.filenames, snapshot.included_keys);
}

#[test]
fn managed_block_is_spliced_without_touching_other_entries() {
    let accounts = vec![account("work")];
    let block = managed_block(&accounts, &["/home/u/.ssh/id_ed25519_work".to_string()]);
    assert_eq!(
        block,
        "# >>> gitcore managed block >>>\n\nHost github-work\n  HostName github.com\n  User git\n  IdentityFile /home/u/.ssh/id_ed25519_work\n  AddKeysToAgent yes\n  IdentitiesOnly yes\n\n# <<< gitcore managed block <<<\n"
    );
    let manual = "Host example\n  User me";
    let first = splice_block(manual, &block);
    assert_eq!(first, format!("{manual}\n\n{block}"));
    let empty_block = managed_block(&[], &[]);
    let second = splice_block(&first, &empty_block);
    assert_eq!(second, format!("{manual}\n\n{empty_block}"));
    assert!(!second.contains("Host github-work"));
    let again = splice_block(&second, &block);
    assert_eq!(again, first);
    assert_eq!(splice_block("", &block), block);
}

#[test]
fn host_key_and_probe_classification() {
    assert_eq!(host_key_status(Some("github.com ssh-ed25519 AAA"), "github.com"), HostKeyStatus::Known);
    assert_eq!(host_key_status(Some("gitlab.com ssh-ed25519 AAA"), "github.com"), HostKeyStatus::New);
    assert_eq!(host_key_status(None, "github.com"), HostKeyStatus::Unknown);
    assert_eq!(
        classify_probe("Hi octocat! You've successfully authenticated, but GitHub does not provide shell access.\n"),
        SshConnectionState::Authenticated
    );
    assert_eq!(classify_probe("git@github.com: Permission denied (publickey)."), SshConnectionState::Failed);
}

#[test]
fn prompts_commands_and_messages() {
    assert!(confirm("Y"));
    assert!(!confirm("yes"));
    assert_eq!(select_index(3, " 2 "), Some(1));
    assert_eq!(select_index(3, "+3"), Some(2));
    assert_eq!(select_index(3, "4"), None);
    assert_eq!(select_index(3, "0"), None);
    assert_eq!(select_index(3, "x"), None);
    assert_eq!(select_index(3, "99999999999999999999999"), None);
    assert_eq!(select_file(&["a".to_string()], "1"), Some(0));
    assert_eq!(
        git_in("/w", &["clone", "github-work:acme/project"]),
        vec!["-C", "/w", "clone", "github-work:acme/project"]
    );
    let mut a = account("work");
    a.gpg_key_id = Some("K".to_string());
    assert_eq!(
        identity_config_args(&a),
        vec![
            vec!["config", "user.name", "tester"],
            vec!["config", "user.email", "tester@example.com"],
            vec!["config", "user.signingkey", "K"],
            vec!["config", "commit.gpgsign", "true"],
        ]
    );
    assert_eq!(public_key_name("id"), "id.pub");
    assert_eq!(failure_detail("  ", " out \n"), Some("out".to_string()));
    assert_eq!(failure_detail("", ""), None);
    assert_eq!(
        missing_executable_message("gpg"),
        "Executable 'gpg' not found in PATH. Please make sure it is installed."
    );
}
