use gitcore::accounts::{default_key_path, host_alias_for};
use gitcore::{Account, AddAccountRequest, GitcoreConfig, GitcoreError, Platform, UpdateAccountRequest};

fn sample_request(name: &str) -> AddAccountRequest {
    AddAccountRequest {
        name: name.to_string(),
        platform: Platform::Github,
        username: "tester".to_string(),
        email: "tester@example.com".to_string(),
        gpg_key_id: None,
        key_path: None,
    }
}

#[test]
fn register_account_derives_alias_and_key_path() {
    let mut config = GitcoreConfig::default();
    let report = config.register_account(sample_request("work")).unwrap();
    assert_eq!(report.account.host_alias, "github-work");
    assert_eq!(report.host_alias, "github-work");
    assert_eq!(report.account.key_path, "id_ed25519_work");
    assert_eq!(config.list_accounts().len(), 1);
    assert_eq!(host_alias_for(Platform::Bitbucket, "p"), "bitbucket-p");
    assert_eq!(default_key_path("x"), "id_ed25519_x");
}

#[test]
fn register_account_with_custom_key_path() {
    let mut config = GitcoreConfig::default();
    let mut request = sample_request("custom");
    request.key_path = Some("custom_id_rsa".to_string());
    let report = config.register_account(request).unwrap();
    assert_eq!(report.account.key_path, "custom_id_rsa");
    assert_eq!(config.accounts[0].key_path, "custom_id_rsa");
}

#[test]
fn add_account_rejections() {
    let mut config = GitcoreConfig::default();
    config.register_account(sample_request("work")).unwrap();
    assert!(matches!(
        config.register_account(sample_request("WORK")),
        Err(GitcoreError::DuplicateAccountName(ref n)) if n == "WORK"
    ));
    assert!(matches!(
        config.register_account(sample_request("bad name")),
        Err(GitcoreError::InvalidAccountName(_))
    ));
    let mut blank = sample_request("other");
    blank.username = " ".to_string();
    assert!(matches!(config.register_account(blank), Err(GitcoreError::EmptyUsername)));
    let mut blank = sample_request("other");
    blank.email = "".to_string();
    assert!(matches!(config.register_account(blank), Err(GitcoreError::EmptyEmail)));
    let clash = Account {
        name: "other".to_string(),
        platform: Platform::Github,
        key_path: "k".to_string(),
        host_alias: "GITHUB-WORK".to_string(),
        username: "u".to_string(),
        email: "e".to_string(),
        gpg_key_id: None,
    };
    assert!(matches!(config.add_account(clash), Err(GitcoreError::DuplicateHostAlias(_))));
    assert_eq!(config.accounts.len(), 1);
}

#[test]
fn find_remove_and_update() {
    let mut config = GitcoreConfig::default();
    config.register_account(sample_request("work")).unwrap();
    config.register_account(sample_request("home")).unwrap();
    assert_eq!(config.find_account("home").unwrap().name, "home");
    assert_eq!(config.find_account("github-w").unwrap().name, "work");
    assert_eq!(config.find_account_by_host_alias("github-home").unwrap().name, "home");
    assert!(matches!(
        config.find_account_by_host_alias("github-h"),
        Err(GitcoreError::AccountNotFound(ref s)) if s == "github-h"
    ));

    let updated = config
        .update_account(
            "work",
            UpdateAccountRequest {
                email: Some("new@example.com".to_string()),
                gpg_key_id: Some(Some("ABC".to_string())),
                ..Default::default()
            },
        )
        .unwrap();
    assert_eq!(updated.email, "new@example.com");
    assert_eq!(updated.username, "tester");
    assert_eq!(config.accounts[0].gpg_key_id.as_deref(), Some("ABC"));

    let bad = config.update_account(
        "work",
        UpdateAccountRequest { username: Some("  ".to_string()), ..Default::default() },
    );
    assert!(matches!(bad, Err(GitcoreError::InvalidConfig(ref m)) if m == "Account 'work' has an empty username"));
    assert_eq!(config.accounts[0].username, "tester");

    let removed = config.remove_account("work").unwrap();
    assert_eq!(removed.name, "work");
    assert_eq!(config.accounts.len(), 1);
    assert!(matches!(config.remove_account("work"), Err(GitcoreError::AccountNotFound(_))));
}

#[test]
fn account_for_remote_matches_alias_forms() {
    let mut config = GitcoreConfig::default();
    config.register_account(sample_request("work")).unwrap();
    assert_eq!(config.account_for_remote("github-work:acme/project").unwrap().name, "work");
    assert_eq!(config.account_for_remote("git@github-work:acme/project").unwrap().name, "work");
    assert!(config.account_for_remote("git@github.com:acme/project").is_none());
}
