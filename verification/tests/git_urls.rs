use gitcore::convert_to_host;
use gitcore::repos::repository_dir_name;

#[test]
fn converts_https_provider_url_to_host_alias() {
    let converted = convert_to_host("https://github.com/acme/project.git", "github-work");
    assert_eq!(converted, "github-work:acme/project");
}

#[test]
fn converts_ssh_provider_url_to_host_alias() {
    let converted = convert_to_host("git@github.com:acme/project.git", "github-work");
    assert_eq!(converted, "github-work:acme/project");
}

#[test]
fn converts_plain_owner_repo_to_host_alias() {
    let converted = convert_to_host("acme/project.git", "github-work");
    assert_eq!(converted, "github-work:acme/project");
}

#[test]
fn converts_ssh_url_with_known_host() {
    let converted = convert_to_host(
        "ssh://git@codeberg.org/manicoproject/wiki.git",
        "codeberg-manico",
    );
    assert_eq!(converted, "codeberg-manico:manicoproject/wiki");
}

#[test]
fn preserves_non_provider_ssh_urls() {
    let converted = convert_to_host("ssh://git@example.com/acme/project.git", "github-work");
    assert_eq!(converted, "ssh://git@example.com/acme/project");
}

#[test]
fn converts_existing_alias_to_new_alias() {
    let converted = convert_to_host("git@github-old:acme/project.git", "github-work");
    assert_eq!(converted, "github-work:acme/project");
}

#[test]
fn converts_provider_path_without_scheme() {
    let converted = convert_to_host("github.com/acme/project.git", "github-work");
    assert_eq!(converted, "github-work:acme/project");
}

#[test]
fn https_url_with_empty_segments_and_whitespace() {
    let converted = convert_to_host("  https://gitlab.com//group///sub/repo.git.git \n", "gitlab-x");
    assert_eq!(converted, "gitlab-x:group/sub/repo");
}

#[test]
fn https_url_of_unknown_host_is_kept() {
    let converted = convert_to_host("https://example.org/acme/project.git", "github-work");
    assert_eq!(converted, "https://example.org/acme/project");
}

#[test]
fn provider_as_last_segment_keeps_whole_url() {
    let converted = convert_to_host("acme/github.com", "github-work");
    assert_eq!(converted, "github-work:acme/github.com");
}

#[test]
fn scp_url_without_colon_is_kept() {
    let converted = convert_to_host("git@github.com", "github-work");
    assert_eq!(converted, "git@github.com");
}

#[test]
fn repository_dir_name_from_urls() {
    assert_eq!(repository_dir_name("github.com/acme/project.git"), "project");
    assert_eq!(repository_dir_name("https://github.com/acme/project/"), "project");
    assert_eq!(repository_dir_name(""), "repo");
    assert_eq!(repository_dir_name("acme/.git"), "repo");
    assert_eq!(repository_dir_name("acme/ tool.git / "), "tool");
}
