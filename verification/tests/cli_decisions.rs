use gitcore::cli::{
    backup_file_name, is_backup_file_name, restore_name_with_extension, scp_alias,
};
use gitcore::ssh::suggests_agent;
use gitcore::{AddAccountRequest, GitcoreConfig, Platform, UpdateAccountRequest, convert_to_host};

fn request(name: &str, platform: Platform) -> AddAccountRequest {
    AddAccountRequest {
        name: name.to_string(),
        platform,
        username: "tester".to_string(),
        email: "tester@example.com".to_string(),
        gpg_key_id: None,
        key_path: None,
    }
}

#[test]
fn scp_alias_reads_the_alias_of_a_rewritten_url() {
    assert_eq!(scp_alias("git@github-work:acme/project.git").as_deref(), Some("github-work"));
    assert_eq!(scp_alias("git@host:a:b").as_deref(), Some("host"));
    assert_eq!(scp_alias("git@:repo").as_deref(), Some(""));
    assert_eq!(scp_alias("git@no-colon"), None);
    assert_eq!(scp_alias("https://github.com/acme/project"), None);
    assert_eq!(scp_alias("github-work:acme/project"), None);
}

#[test]
fn backup_file_name_defaults_and_extension() {
    assert_eq!(backup_file_name(None), "gitcore_backup.gitcore");
    assert_eq!(backup_file_name(Some("mybackup".to_string())), "mybackup.gitcore");
    assert_eq!(backup_file_name(Some("archive.tar".to_string())), "archive.tar");
    assert_eq!(backup_file_name(Some(String::new())), ".gitcore");
}

#[test]
fn backup_picker_offers_vaults_and_json() {
    assert!(is_backup_file_name("team.gitcore"));
    assert!(is_backup_file_name("legacy.json"));
    assert!(!is_backup_file_name("notes.txt"));
    assert!(!is_backup_file_name("gitcore"));
}

#[test]
fn restore_name_gets_extension_only_without_dot() {
    assert_eq!(restore_name_with_extension("vault").as_deref(), Some("vault.gitcore"));
    assert_eq!(restore_name_with_extension("vault.gitcore"), None);
    assert_eq!(restore_name_with_extension("dir.d/vault"), None);
}

#[test]
fn agent_hint_on_permission_denied() {
    assert!(suggests_agent("git@github.com: Permission denied (publickey)."));
    assert!(!suggests_agent("Connection timed out"));
    assert!(!suggests_agent("permission denied"));
}

#[test]
fn update_answers_keep_blank_fields() {
    let r = UpdateAccountRequest::from_answers(String::new(), "new@example.com".to_string(), None);
    assert_eq!(r.username, None);
    assert_eq!(r.email.as_deref(), Some("new@example.com"));
    assert_eq!(r.gpg_key_id, None);

    let r = UpdateAccountRequest::from_answers("neo".to_string(), String::new(), Some(None));
    assert_eq!(r.username.as_deref(), Some("neo"));
    assert_eq!(r.email, None);
    assert_eq!(r.gpg_key_id, Some(None));
}

#[test]
fn position_of_matches_exact_names_only() {
    let mut config = GitcoreConfig::default();
    config.register_account(request("work", Platform::Github)).unwrap();
    config.register_account(request("personal", Platform::Gitlab)).unwrap();
    assert_eq!(config.position_of("personal"), Some(1));
    assert_eq!(config.position_of("work"), Some(0));
    assert_eq!(config.position_of("Work"), None);
    assert_eq!(config.position_of("github-work"), None);
}

#[test]
fn converted_url_is_detected_as_its_account() {
    let mut config = GitcoreConfig::default();
    config.register_account(request("work", Platform::Github)).unwrap();
    config.register_account(request("personal", Platform::Gitlab)).unwrap();
    for url in [
        "git@github.com:acme/project.git",
        "https://gitlab.com/acme/project",
        "ssh://github.com/acme/project",
        "acme/project",
    ] {
        let remote = convert_to_host(url, "gitlab-personal");
        assert_eq!(config.account_for_remote(&remote).unwrap().name, "personal");
        let remote = convert_to_host(url, "github-work");
        assert_eq!(config.account_for_remote(&remote).unwrap().name, "work");
    }
}
