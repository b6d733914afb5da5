use gitcore::audit::{CONFIG_FILE_MODE, PRIVATE_KEY_MODE, PUBLIC_KEY_MODE, audit_targets};
use gitcore::repos::{
    CloneAction, GitRemoteMutation, attach_outcome, detect_account, plan_add_remote, plan_clone,
    plan_switch_remote,
};
use gitcore::vault::{SALT_LEN, NONCE_LEN, seal_vault, unframe_vault};
use gitcore::{
    Account, AddAccountRequest, GitcoreConfig, GitcoreError, Platform, convert_to_host,
    decrypt_vault, validate_accounts,
};
use std::path::PathBuf;

fn account(name: &str, key: &str) -> Account {
    Account {
        name: name.to_string(),
        platform: Platform::Github,
        key_path: key.to_string(),
        host_alias: format!("github-{name}"),
        username: "tester".to_string(),
        email: "tester@example.com".to_string(),
        gpg_key_id: None,
    }
}

fn request(name: &str, key_path: Option<&str>) -> AddAccountRequest {
    AddAccountRequest {
        name: name.to_string(),
        platform: Platform::Github,
        username: "tester".to_string(),
        email: "tester@example.com".to_string(),
        gpg_key_id: None,
        key_path: key_path.map(str::to_string),
    }
}

#[test]
fn plan_clone_clones_reuses_or_refuses() {
    let a = account("work", "id_ed25519_work");
    let path = PathBuf::from("/w/project");
    match plan_clone(&a, "https://github.com/acme/project", path.clone(), false, false).unwrap() {
        CloneAction::Clone { remote_url } => assert_eq!(remote_url, "github-work:acme/project"),
        other => panic!("unexpected {other:?}"),
    }
    match plan_clone(&a, "git@github.com:acme/project.git", path.clone(), true, true).unwrap() {
        CloneAction::ReuseExisting { remote_url } => assert_eq!(remote_url, "github-work:acme/project"),
        other => panic!("unexpected {other:?}"),
    }
    match plan_clone(&a, "acme/project", path.clone(), true, false) {
        Err(GitcoreError::NotGitRepository(p)) => assert_eq!(p, path),
        other => panic!("unexpected {other:?}"),
    }
}

#[test]
fn plan_remote_add_and_switch() {
    let a = account("personal", "id_ed25519_personal");
    let path = PathBuf::from("/r");
    assert_eq!(
        plan_add_remote(&a, "github.com/acme/x.git", path.clone(), true).unwrap(),
        "github-personal:acme/x"
    );
    assert!(matches!(
        plan_add_remote(&a, "acme/x", path.clone(), false),
        Err(GitcoreError::NotGitRepository(_))
    ));
    assert_eq!(
        plan_switch_remote(&a, path.clone(), true, Some("github-work:acme/project".to_string())).unwrap(),
        "github-personal:acme/project"
    );
    assert!(matches!(
        plan_switch_remote(&a, path.clone(), true, None),
        Err(GitcoreError::MissingOriginRemote(_))
    ));
    assert!(matches!(
        plan_switch_remote(&a, path, false, Some("x".to_string())),
        Err(GitcoreError::NotGitRepository(_))
    ));
}

#[test]
fn detect_account_reads_origin() {
    let mut config = GitcoreConfig::default();
    config.add_account(account("work", "k1")).unwrap();
    config.add_account(account("home", "k2")).unwrap();
    let path = PathBuf::from("/r");
    let found = detect_account(&config, path.clone(), true, Some("git@github-home:me/x".to_string()));
    assert_eq!(found.unwrap().unwrap().name, "home");
    assert!(detect_account(&config, path.clone(), true, None).unwrap().is_none());
    assert!(detect_account(&config, path.clone(), true, Some("git@github.com:me/x".to_string()))
        .unwrap()
        .is_none());
    assert!(matches!(
        detect_account(&config, path, false, None),
        Err(GitcoreError::NotGitRepository(_))
    ));
}

#[test]
fn attach_outcome_falls_back_to_set_url() {
    assert_eq!(attach_outcome(Ok(()), None), Ok(GitRemoteMutation::Added));
    assert_eq!(
        attach_outcome(Err("exists".to_string()), Some(Ok(()))),
        Ok(GitRemoteMutation::Updated)
    );
    assert_eq!(
        attach_outcome(Err("add failed".to_string()), Some(Err("set failed".to_string()))),
        Err("add failed; fallback set-url also failed: set failed".to_string())
    );
}

#[test]
fn audit_targets_list_keys_and_configs() {
    let targets = audit_targets(&[account("work", "id_work"), account("home", "id_home")]);
    assert_eq!(targets.keys.len(), 2);
    assert_eq!(targets.keys[1].private_key.file_name, "id_home");
    assert_eq!(targets.keys[1].private_key.expected_permissions, PRIVATE_KEY_MODE);
    assert_eq!(targets.keys[0].public_key.file_name, "id_work.pub");
    assert_eq!(targets.keys[0].public_key.expected_permissions, PUBLIC_KEY_MODE);
    assert_eq!(PUBLIC_KEY_MODE, 0o644);
    assert_eq!(targets.ssh_config.file_name, "config");
    assert_eq!(targets.ssh_config.expected_permissions, 0o600);
    assert_eq!(targets.config_file_permissions, CONFIG_FILE_MODE);
}

#[test]
fn seal_vault_uses_the_given_salt_and_nonce() {
    let salt = [7u8; SALT_LEN];
    let nonce = [9u8; NONCE_LEN];
    let sealed = seal_vault(b"secret config", "pw", &salt, &nonce).unwrap();
    let (s, n, c) = unframe_vault(&sealed).unwrap();
    assert_eq!(s, salt.to_vec());
    assert_eq!(n, nonce.to_vec());
    assert_eq!(c.len(), b"secret config".len() + 16);
    assert_eq!(decrypt_vault(&sealed, "pw").unwrap(), b"secret config".to_vec());
    assert!(decrypt_vault(&sealed, "other").is_err());
    assert_eq!(seal_vault(b"secret config", "pw", &salt, &nonce).unwrap(), sealed);
}

#[test]
fn shared_key_files_are_refused() {
    let mut config = GitcoreConfig::default();
    config.register_account(request("work", Some("shared"))).unwrap();
    match config.register_account(request("home", Some("SHARED"))) {
        Err(GitcoreError::DuplicateKeyPath(k)) => assert_eq!(k, "SHARED"),
        other => panic!("unexpected {other:?}"),
    }
    assert_eq!(config.accounts.len(), 1);
    match config.add_account(account("lab", "shared")) {
        Err(GitcoreError::DuplicateKeyPath(k)) => assert_eq!(k, "shared"),
        other => panic!("unexpected {other:?}"),
    }
    config.register_account(request("home", None)).unwrap();
    assert_eq!(config.accounts[1].key_path, "id_ed25519_home");
    assert_eq!(
        validate_accounts(&[account("a", "k"), account("b", "K")]),
        Err("Duplicate key path 'K'".to_string())
    );
}

#[test]
fn switching_an_alias_url_replaces_the_alias() {
    let first = convert_to_host("https://github.com/acme/project", "github-work");
    assert_eq!(first, "github-work:acme/project");
    assert_eq!(convert_to_host(&first, "github-personal"), "github-personal:acme/project");
    assert_eq!(convert_to_host("github-work:acme/project.git", "gitlab-x"), "gitlab-x:acme/project");
    assert_eq!(convert_to_host("https://example.org/acme/p", "github-work"), "https://example.org/acme/p");
    assert_eq!(convert_to_host("my.host:acme/p", "a"), "a:my.host:acme/p");
}

#[test]
fn every_added_account_has_its_host_entry() {
    let mut config = GitcoreConfig::default();
    config.register_account(request("work", None)).unwrap();
    config.register_account(request("home", None)).unwrap();
    let files: Vec<String> = config.accounts.iter().map(|a| format!("/h/.ssh/{}", a.key_path)).collect();
    let block = gitcore::ssh::managed_block(&config.accounts, &files);
    for (a, f) in config.accounts.iter().zip(&files) {
        let entry = format!(
            "Host {}\n  HostName github.com\n  User git\n  IdentityFile {}\n  AddKeysToAgent yes\n  IdentitiesOnly yes\n\n",
            a.host_alias, f
        );
        assert!(block.contains(&entry));
    }
}
