use review_to_md::repository::{
    parse_github_url, remote_names, select_github_remote, upstream_branch_of, GetCurrentBranch,
    GetRepoistoryInfo, MockRepository,
};

#[test]
fn test_parse_github_url_ssh() {
    let url = "git@github.com:foo/bar-baz.git";
    let result = parse_github_url(url).unwrap();
    assert_eq!(result, ("foo".to_string(), "bar-baz".to_string()));
}

#[test]
fn test_parse_github_url_https() {
    let url = "https://github.com/foo/bar-baz.git";
    let result = parse_github_url(url).unwrap();
    assert_eq!(result, ("foo".to_string(), "bar-baz".to_string()));
}

#[test]
fn test_parse_github_url_https_no_git() {
    let url = "https://github.com/foo/bar-baz";
    let result = parse_github_url(url).unwrap();
    assert_eq!(result, ("foo".to_string(), "bar-baz".to_string()));
}

#[test]
fn github_url_errors() {
    assert_eq!(
        parse_github_url("https://gitlab.com/foo/bar").unwrap_err(),
        "Could not parse GitHub URL: https://gitlab.com/foo/bar"
    );
    assert!(parse_github_url("https://github.com/foo/bar/baz").is_err());
    assert_eq!(
        parse_github_url("git@github.com:foo/bar.git.git").unwrap(),
        ("foo".to_string(), "bar".to_string())
    );
}

#[test]
fn remotes_of_git_output() {
    assert_eq!(remote_names("origin\nupstream\n").unwrap(), vec!["origin", "upstream"]);
    assert_eq!(remote_names("").unwrap_err(), "No git remotes configured");
}

#[test]
fn the_only_github_remote_is_chosen() {
    let remotes = vec![
        ("origin".to_string(), "git@github.com:me/proj.git\n".to_string()),
        ("mirror".to_string(), "https://example.com/me/proj.git".to_string()),
    ];
    assert_eq!(select_github_remote(&remotes).unwrap(), ("me".to_string(), "proj".to_string()));
}

#[test]
fn no_or_many_github_remotes_are_errors() {
    let none = vec![("x".to_string(), "https://example.com/a/b".to_string())];
    assert_eq!(select_github_remote(&none).unwrap_err(), "No GitHub remotes found");
    let many = vec![
        ("origin".to_string(), "git@github.com:me/proj.git".to_string()),
        ("upstream".to_string(), "https://github.com/org/proj".to_string()),
    ];
    assert_eq!(
        select_github_remote(&many).unwrap_err(),
        "Multiple GitHub remotes found. Please specify --repo:\n  origin -> me/proj\n  upstream -> org/proj"
    );
}

#[test]
fn upstream_branch_is_trimmed() {
    assert_eq!(upstream_branch_of("origin/main\n").unwrap(), "origin/main");
    assert_eq!(
        upstream_branch_of("  \n").unwrap_err(),
        "Could not determine upstream branch: empty result"
    );
}

#[test]
fn mock_repository_answers() {
    let repo = MockRepository::new("o", "r", "origin/dev");
    assert_eq!(repo.get_github_owner_and_repo().unwrap(), ("o".to_string(), "r".to_string()));
    assert_eq!(repo.get_upstream_branch().unwrap(), "origin/dev");
}
