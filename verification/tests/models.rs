use gitcore::{Account, Platform, is_valid_account_name, parse_platform, validate_accounts};

fn account(name: &str, alias: &str, username: &str, email: &str) -> Account {
    Account {
        name: name.to_string(),
        platform: Platform::Github,
        key_path: format!("id_{name}"),
        host_alias: alias.to_string(),
        username: username.to_string(),
        email: email.to_string(),
        gpg_key_id: None,
    }
}

#[test]
fn test_is_valid_account_name() {
    assert!(is_valid_account_name("work"));
    assert!(is_valid_account_name("personal-git"));
    assert!(is_valid_account_name("user_123"));
    assert!(!is_valid_account_name(""));
    assert!(!is_valid_account_name("work account"));
    assert!(!is_valid_account_name("work@git"));
}

#[test]
fn test_validate_accounts_duplicates() {
    let accounts = vec![
        Account {
            name: "test".to_string(),
            platform: Platform::Github,
            key_path: "key".to_string(),
            host_alias: "alias".to_string(),
            username: "user".to_string(),
            email: "email".to_string(),
            gpg_key_id: None,
        },
        Account {
            name: "TEST".to_string(),
            platform: Platform::Gitlab,
            key_path: "k2".to_string(),
            host_alias: "h2".to_string(),
            username: "u2".to_string(),
            email: "e2".to_string(),
            gpg_key_id: None,
        },
    ];
    assert!(validate_accounts(&accounts).is_err());

    let accounts = vec![
        Account {
            name: "test".to_string(),
            platform: Platform::Github,
            key_path: "key".to_string(),
            host_alias: "alias".to_string(),
            username: "user".to_string(),
            email: "email".to_string(),
            gpg_key_id: None,
        },
        Account {
            name: "a2".to_string(),
            platform: Platform::Github,
            key_path: "k2".to_string(),
            host_alias: "ALIAS".to_string(),
            username: "u2".to_string(),
            email: "e2".to_string(),
            gpg_key_id: None,
        },
    ];
    assert!(validate_accounts(&accounts).is_err());
}

#[test]
fn test_validate_accounts_empty_fields() {
    let accounts = vec![Account {
        name: "work".to_string(),
        platform: Platform::Github,
        key_path: "k1".to_string(),
        host_alias: "h1".to_string(),
        username: "  ".to_string(),
        email: "e1".to_string(),
        gpg_key_id: None,
    }];
    assert!(validate_accounts(&accounts).is_err());
}

#[test]
fn provider_key_urls_match_expected_hosts() {
    assert_eq!(
        Platform::Github.provider_key_url(),
        "https://github.com/settings/keys"
    );
    assert_eq!(
        Platform::Gitlab.provider_key_url(),
        "https://gitlab.com/-/profile/keys"
    );
}

#[test]
fn validation_messages_name_the_first_problem() {
    let accounts = vec![account("bad name", "a", "u", "e")];
    assert_eq!(validate_accounts(&accounts), Err("Invalid account name 'bad name'".to_string()));
    let accounts = vec![account("w", "a", "u", "\t\n")];
    assert_eq!(validate_accounts(&accounts), Err("Account 'w' has an empty email".to_string()));
    let accounts = vec![account("w", "a", " ", "e")];
    assert_eq!(validate_accounts(&accounts), Err("Account 'w' has an empty username".to_string()));
    let accounts = vec![account("w", "a", "u", "e"), account("W", "b", "u", "e")];
    assert_eq!(validate_accounts(&accounts), Err("Duplicate account name 'W'".to_string()));
    let accounts = vec![account("w", "Alias", "u", "e"), account("v", "aLIAS", "u", "e")];
    assert_eq!(validate_accounts(&accounts), Err("Duplicate host alias 'aLIAS'".to_string()));
    let accounts = vec![account("w", "a", "u", "e"), account("v", "b", "u", "e")];
    assert_eq!(validate_accounts(&accounts), Ok(()));
    let mut shared = account("v", "b", "u", "e");
    shared.key_path = "ID_W".to_string();
    let accounts = vec![account("w", "a", "u", "e"), shared];
    assert_eq!(validate_accounts(&accounts), Err("Duplicate key path 'ID_W'".to_string()));
}

#[test]
fn hosts_and_platform_names() {
    assert_eq!(Platform::Codeberg.host(), "codeberg.org");
    assert_eq!(Platform::Bitbucket.host(), "bitbucket.org");
    assert_eq!(Platform::Bitbucket.provider_key_url(), "https://bitbucket.org/account/settings/ssh-keys/");
    assert_eq!(parse_platform("GitHub").unwrap(), Platform::Github);
    assert_eq!(parse_platform("bb").unwrap(), Platform::Bitbucket);
    assert_eq!(parse_platform("CODEBERG").unwrap(), Platform::Codeberg);
    assert!(matches!(
        parse_platform("sourcehut"),
        Err(gitcore::GitcoreError::UnsupportedPlatform(ref s)) if s == "sourcehut"
    ));
    assert_eq!("gitlab".parse::<Platform>(), Ok(Platform::Gitlab));
}
