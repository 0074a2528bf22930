use review_to_md::github::{graphql_args, validate_github_owner, validate_github_repo, NameError};

#[test]
fn test_validate_github_owner_valid() {
    assert!(validate_github_owner("octocat").is_ok());
    assert!(validate_github_owner("github").is_ok());
    assert!(validate_github_owner("my-org").is_ok());
    assert!(validate_github_owner("user123").is_ok());
    assert!(validate_github_owner("a").is_ok());
    assert!(validate_github_owner("a-b").is_ok());
}

#[test]
fn test_validate_github_owner_invalid() {
    assert!(validate_github_owner("").is_err());
    assert!(validate_github_owner(&"a".repeat(40)).is_err());
    assert!(validate_github_owner("-start").is_err());
    assert!(validate_github_owner("end-").is_err());
    assert!(validate_github_owner("double--dash").is_err());
    assert!(validate_github_owner("user@example").is_err());
    assert!(validate_github_owner("user name").is_err());
    assert!(validate_github_owner("user_name").is_err());
    assert!(validate_github_owner("user.name").is_err());
}

#[test]
fn test_validate_github_repo_valid() {
    assert!(validate_github_repo("hello-world").is_ok());
    assert!(validate_github_repo("my_repo").is_ok());
    assert!(validate_github_repo("repo.name").is_ok());
    assert!(validate_github_repo("test-123_abc.xyz").is_ok());
    assert!(validate_github_repo("a").is_ok());
    assert!(validate_github_repo("123").is_ok());
}

#[test]
fn test_validate_github_repo_invalid() {
    assert!(validate_github_repo("").is_err());
    assert!(validate_github_repo(&"a".repeat(101)).is_err());
    assert!(validate_github_repo(".dotfile").is_err());
    assert!(validate_github_repo("repo with spaces").is_err());
    assert!(validate_github_repo("repo@test").is_err());
    assert!(validate_github_repo("repo#test").is_err());
}

#[test]
fn owner_and_repo_length_limits() {
    assert!(validate_github_owner(&"a".repeat(39)).is_ok());
    assert_eq!(validate_github_owner(&"a".repeat(40)), Err(NameError::OwnerLength));
    assert!(validate_github_repo(&"a".repeat(100)).is_ok());
    assert_eq!(validate_github_repo(&"a".repeat(101)), Err(NameError::RepoLength));
    assert_eq!(validate_github_owner("double--dash"), Err(NameError::OwnerDoubleHyphen));
    assert_eq!(validate_github_repo(".x"), Err(NameError::RepoLeadingDot));
}

#[test]
fn graphql_arguments() {
    assert_eq!(
        graphql_args("query { viewer { login } }", &[]),
        vec!["api", "graphql", "-f", "query=query { viewer { login } }"]
    );
    assert_eq!(
        graphql_args("q", &[("owner", "o"), ("prNumber", "42")]),
        vec!["api", "graphql", "-f", "query=q", "-F", "owner=o", "-F", "prNumber=42"]
    );
}
