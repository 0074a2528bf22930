use review_to_md::cli::review_format::{select_review_id, ReviewFormatCommand};
use review_to_md::client::{
    Comment, CommentCount, FetchReviewCommentsClient, ListPullRequestsClient, ListReviewsClient,
    MockGitHubClient, PullRequest, Review, User,
};
use review_to_md::repository::MockRepository;
use review_to_md::review::{
    filter_reviews_by_author, parse_review_id_or_index, resolve_author_filter, select_pull_request,
    select_review_by_index, split_owner_repo, PrSelectionError, ReviewIdOrIndex, SelectReviewError,
};

fn create_test_review(id: &str, author: &str, comment_count: u32) -> Review {
    Review {
        id: id.to_string(),
        author: User {
            login: author.to_string(),
        },
        state: "APPROVED".to_string(),
        body: Some("Test review".to_string()),
        comments: CommentCount {
            total_count: comment_count,
        },
    }
}

fn create_test_comment(path: &str, line: Option<u32>, body: &str, user: &str) -> Comment {
    Comment {
        id: String::new(),
        path: path.to_string(),
        line,
        body: body.to_string(),
        diff_hunk: "@@ -8,4 +8,6 @@\n fn main() {\n     println!(\"Hello\");\n+    let x = 42;\n }\n"
            .to_string(),
        user: User {
            login: user.to_string(),
        },
        is_minimized: false,
    }
}

fn create_test_pull_request(id: &str, number: u32, branch: &str) -> PullRequest {
    PullRequest {
        id: id.to_string(),
        number,
        title: format!("PR #{}", number),
        head_ref_name: branch.to_string(),
    }
}

fn command() -> ReviewFormatCommand {
    ReviewFormatCommand::new()
}

#[test]
fn test_filter_by_author() {
    let reviews = vec![
        create_test_review("1", "alice", 5),
        create_test_review("2", "bob", 3),
        create_test_review("3", "alice", 2),
    ];
    let filtered = filter_reviews_by_author(&reviews, "alice");
    assert_eq!(filtered.len(), 2);
    assert_eq!(filtered[0].author.login, "alice");
    assert_eq!(filtered[1].author.login, "alice");
}

#[test]
fn test_filter_case_insensitive() {
    let reviews = vec![create_test_review("1", "Alice", 5)];
    let filtered = filter_reviews_by_author(&reviews, "alice");
    assert_eq!(filtered.len(), 1);
}

#[test]
fn test_filter_no_matches() {
    let reviews = vec![create_test_review("1", "alice", 5)];
    let filtered = filter_reviews_by_author(&reviews, "bob");
    assert_eq!(filtered.len(), 0);
}

#[test]
fn test_select_by_index_positive() {
    let reviews = [create_test_review("1", "alice", 5), create_test_review("2", "bob", 3)];
    let review_refs: Vec<&Review> = reviews.iter().collect();
    let selected = select_review_by_index(&review_refs, 1).unwrap();
    assert_eq!(selected.author.login, "alice");
    let selected = select_review_by_index(&review_refs, 2).unwrap();
    assert_eq!(selected.author.login, "bob");
}

#[test]
fn test_select_by_index_last() {
    let reviews = [create_test_review("1", "alice", 5), create_test_review("2", "bob", 3)];
    let review_refs: Vec<&Review> = reviews.iter().collect();
    let selected = select_review_by_index(&review_refs, -1).unwrap();
    assert_eq!(selected.author.login, "bob");
}

#[test]
fn test_select_out_of_bounds() {
    let reviews = [create_test_review("1", "alice", 5)];
    let review_refs: Vec<&Review> = reviews.iter().collect();
    assert!(select_review_by_index(&review_refs, 0).is_err());
    assert!(select_review_by_index(&review_refs, 2).is_err());
    let err = select_review_by_index(&review_refs, 2).unwrap_err();
    assert_eq!(err, SelectReviewError::IndexOutOfBounds { index: 2, len: 1 });
    assert_eq!(
        err.message(),
        "Review index 2 is out of bounds. Valid range: 1-1 or -1 for last review"
    );
}

#[test]
fn test_select_empty() {
    let reviews: Vec<Review> = vec![];
    let review_refs: Vec<&Review> = reviews.iter().collect();
    assert!(select_review_by_index(&review_refs, 1).is_err());
    assert_eq!(
        select_review_by_index(&review_refs, 1).unwrap_err().message(),
        "No reviews available to select from"
    );
}

#[test]
fn test_resolve_author_filter_passthrough() {
    let client = MockGitHubClient::new("unused");
    let result = resolve_author_filter("alice", &client).unwrap();
    assert_eq!(result, "alice");
}

#[test]
fn test_resolve_author_filter_me_values() {
    let client = MockGitHubClient::new("testuser");
    assert_eq!(resolve_author_filter("@me", &client).unwrap(), "testuser");
    assert_eq!(resolve_author_filter("@ME", &client).unwrap(), "testuser");
    assert_eq!(resolve_author_filter("@Me", &client).unwrap(), "testuser");
}

#[test]
fn review_id_or_index_reads_numbers_as_indexes() {
    assert_eq!(parse_review_id_or_index("3"), ReviewIdOrIndex::Index(3));
    assert_eq!(parse_review_id_or_index("-1"), ReviewIdOrIndex::Index(-1));
    assert_eq!(parse_review_id_or_index("+7"), ReviewIdOrIndex::Index(7));
    assert_eq!(parse_review_id_or_index("PRR_abc"), ReviewIdOrIndex::Id("PRR_abc"));
    assert_eq!(parse_review_id_or_index("2147483648"), ReviewIdOrIndex::Id("2147483648"));
    assert_eq!(parse_review_id_or_index("-2147483648"), ReviewIdOrIndex::Index(i32::MIN));
}

#[test]
fn owner_repo_split_and_error() {
    assert_eq!(split_owner_repo("owner/repo").unwrap(), ("owner".to_string(), "repo".to_string()));
    assert_eq!(
        split_owner_repo("just-a-name").unwrap_err(),
        "Cannot interpret \"just-a-name\" as 'owner/repo'"
    );
}

#[test]
fn pull_request_of_branch() {
    let prs = vec![
        create_test_pull_request("pr-1", 10, "feature-a"),
        create_test_pull_request("pr-2", 20, "feature-b"),
    ];
    assert_eq!(select_pull_request(&prs, "origin/feature-b"), Ok(20));
    assert_eq!(
        select_pull_request(&prs, "origin/other"),
        Err(PrSelectionError::NoPullRequest { branch: "other".to_string() })
    );
}

#[test]
fn review_chosen_by_author_and_index() {
    let reviews = vec![
        create_test_review("review-1", "alice", 1),
        create_test_review("review-2", "bob", 2),
        create_test_review("review-3", "alice", 1),
    ];
    assert_eq!(select_review_id(&reviews, Some("alice"), -1, 42).unwrap(), "review-3");
    assert_eq!(select_review_id(&reviews, Some("ALICE"), 1, 42).unwrap(), "review-1");
    assert_eq!(select_review_id(&reviews, None, 2, 42).unwrap(), "review-2");
    assert_eq!(
        select_review_id(&reviews, Some("carol"), -1, 42).unwrap_err(),
        "No reviews found by author 'carol' for PR #42"
    );
}

#[test]
fn test_mock_fetch_comments() {
    let client = MockGitHubClient::new("testuser").with_comments(
        "test-review",
        vec![Comment {
            id: String::new(),
            path: "test.rs".to_string(),
            line: Some(1),
            body: "test comment".to_string(),
            diff_hunk: "".to_string(),
            user: User {
                login: "user".to_string(),
            },
            is_minimized: false,
        }],
    );
    let comments = client.fetch_review_comments("test-review").unwrap();
    assert_eq!(comments.len(), 1);
    assert_eq!(comments[0].body, "test comment");
}

#[test]
fn mock_reports_missing_entries() {
    let client = MockGitHubClient::new("testuser");
    assert_eq!(client.fetch_review_comments("nope").unwrap_err(), "Could not find comments for review nope");
    assert_eq!(client.list_reviews("o", "r", 1).unwrap_err(), "Could not find reviews for (\"o\", \"r\", 1)");
    assert_eq!(client.list_pull_requests("o", "r").unwrap_err(), "Could not find pull requests for (\"o\", \"r\")");
}

#[test]
fn mock_keeps_the_latest_entry() {
    let client = MockGitHubClient::new("u")
        .with_reviews("o", "r", 1, vec![create_test_review("a", "x", 0)])
        .with_reviews("o", "r", 1, vec![create_test_review("b", "x", 0)]);
    let reviews = client.list_reviews("o", "r", 1).unwrap();
    assert_eq!(reviews.len(), 1);
    assert_eq!(reviews[0].id, "b");
}

#[test]
fn test_review_command_with_pr_and_review_id() {
    let client = MockGitHubClient::new("testuser")
        .with_reviews("owner", "repo", 42, vec![create_test_review("review-123", "octocat", 1)])
        .with_comments(
            "review-123",
            vec![create_test_comment(
                "src/lib.rs",
                Some(10),
                "This should return a Result instead",
                "octocat",
            )],
        );
    let repository = MockRepository::new("owner", "repo", "origin/main");
    let mut cmd = command();
    cmd.pr_or_file = Some("42".to_string());
    cmd.repo = Some("owner/repo".to_string());
    cmd.review = Some("review-123".to_string());
    let output = cmd.run(&client, &repository, None).unwrap();
    assert!(output.contains("src/lib.rs"));
    assert!(output.contains("This should return a Result instead"));
}

#[test]
fn test_review_command_with_author_filter() {
    let client = MockGitHubClient::new("testuser")
        .with_reviews(
            "owner",
            "repo",
            42,
            vec![
                create_test_review("review-1", "alice", 1),
                create_test_review("review-2", "bob", 2),
                create_test_review("review-3", "alice", 1),
            ],
        )
        .with_comments(
            "review-3",
            vec![create_test_comment("src/main.rs", Some(10), "Nice work!", "alice")],
        );
    let repository = MockRepository::new("owner", "repo", "origin/main");
    let mut cmd = command();
    cmd.pr_or_file = Some("42".to_string());
    cmd.repo = Some("owner/repo".to_string());
    cmd.author = Some("alice".to_string());
    let output = cmd.run(&client, &repository, None).unwrap();
    assert!(output.contains("Nice work!"));
}

#[test]
fn test_review_command_with_at_me_author() {
    let client = MockGitHubClient::new("testuser")
        .with_reviews(
            "owner",
            "repo",
            42,
            vec![create_test_review("review-1", "testuser", 1), create_test_review("review-2", "other", 2)],
        )
        .with_comments(
            "review-1",
            vec![create_test_comment("src/lib.rs", Some(10), "My own comment", "testuser")],
        );
    let repository = MockRepository::new("owner", "repo", "origin/main");
    let mut cmd = command();
    cmd.pr_or_file = Some("42".to_string());
    cmd.repo = Some("owner/repo".to_string());
    cmd.author = Some("@me".to_string());
    let output = cmd.run(&client, &repository, None).unwrap();
    assert!(output.contains("My own comment"));
}

#[test]
fn test_review_command_auto_detect_pr_from_branch() {
    let client = MockGitHubClient::new("testuser")
        .with_pull_requests(
            "owner",
            "repo",
            vec![
                create_test_pull_request("pr-1", 10, "feature-a"),
                create_test_pull_request("pr-2", 20, "feature-b"),
            ],
        )
        .with_reviews("owner", "repo", 20, vec![create_test_review("review-x", "octocat", 1)])
        .with_comments(
            "review-x",
            vec![create_test_comment("src/feature.rs", Some(10), "Auto-detected PR comment", "octocat")],
        );
    let repository = MockRepository::new("owner", "repo", "origin/feature-b");
    let mut cmd = command();
    cmd.repo = Some("owner/repo".to_string());
    let output = cmd.run(&client, &repository, None).unwrap();
    assert!(output.contains("Auto-detected PR comment"));
}

#[test]
fn test_review_command_no_comments() {
    let client = MockGitHubClient::new("testuser")
        .with_reviews("owner", "repo", 42, vec![create_test_review("review-123", "octocat", 0)])
        .with_comments("review-123", vec![]);
    let repository = MockRepository::new("owner", "repo", "origin/main");
    let mut cmd = command();
    cmd.pr_or_file = Some("42".to_string());
    cmd.repo = Some("owner/repo".to_string());
    cmd.review = Some("review-123".to_string());
    let result = cmd.run(&client, &repository, None);
    assert!(result.is_ok());
    let output_str = result.unwrap();
    assert_eq!(output_str, "");
}

#[test]
fn test_review_command_fails_with_multiple_prs_for_branch() {
    let client = MockGitHubClient::new("testuser").with_pull_requests(
        "owner",
        "repo",
        vec![
            create_test_pull_request("pr-1", 10, "feature-branch"),
            create_test_pull_request("pr-2", 20, "feature-branch"),
        ],
    );
    let repository = MockRepository::new("owner", "repo", "origin/feature-branch");
    let mut cmd = command();
    cmd.repo = Some("owner/repo".to_string());
    let result = cmd.run(&client, &repository, None);
    assert!(result.is_err());
    let err = result.unwrap_err();
    assert!(err.contains("Multiple PRs found"));
    assert!(err.contains("#10"));
    assert!(err.contains("#20"));
}

#[test]
fn test_review_command_fails_with_no_pr_for_branch() {
    let client = MockGitHubClient::new("testuser").with_pull_requests(
        "owner",
        "repo",
        vec![create_test_pull_request("pr-1", 10, "other-branch")],
    );
    let repository = MockRepository::new("owner", "repo", "origin/feature-branch");
    let mut cmd = command();
    cmd.repo = Some("owner/repo".to_string());
    let result = cmd.run(&client, &repository, None);
    assert!(result.is_err());
    let err = result.unwrap_err();
    assert!(err.contains("No open PR found for branch"));
}

#[test]
fn review_command_uses_review_index() {
    let client = MockGitHubClient::new("u")
        .with_reviews(
            "owner",
            "repo",
            7,
            vec![create_test_review("first", "a", 1), create_test_review("second", "b", 1)],
        )
        .with_comments("first", vec![create_test_comment("a.rs", Some(9), "from the first", "a")]);
    let repository = MockRepository::new("owner", "repo", "origin/main");
    let mut cmd = command();
    cmd.pr_or_file = Some("7".to_string());
    cmd.review = Some("1".to_string());
    assert_eq!(cmd.get_review_id(&client, &repository).unwrap(), "first");
}

#[test]
fn review_command_rejects_a_bad_pr_number() {
    let client = MockGitHubClient::new("u");
    let repository = MockRepository::new("owner", "repo", "origin/main");
    let mut cmd = command();
    cmd.pr_or_file = Some("abc".to_string());
    cmd.repo = Some("owner/repo".to_string());
    assert_eq!(
        cmd.run(&client, &repository, None).unwrap_err(),
        "Cannot interpret \"abc\" as a PR number: invalid digit found in string"
    );
}

#[test]
fn review_command_requirements() {
    let mut cmd = command();
    assert_eq!(cmd.required_executables(false), vec!["gh", "git"]);
    cmd.repo = Some("o/r".to_string());
    assert_eq!(cmd.required_executables(false), vec!["gh"]);
    cmd.repo = None;
    cmd.review = Some("PRR_x".to_string());
    assert_eq!(cmd.required_executables(false), vec!["gh"]);
    cmd.pr_or_file = Some("review-comments.json".to_string());
    assert_eq!(cmd.required_executables(true), Vec::<&str>::new());
}

#[test]
fn quoted_names_escape_like_debug() {
    for name in ["plain", "with \"quotes\"", "tab\there", "nul\0", "bell\u{7}", "esc\u{1b}", "del\u{7f}", "line\nbreak", "back\\slash", "é"] {
        let expected = format!("Cannot interpret {:?} as 'owner/repo'", name);
        assert_eq!(split_owner_repo(name).unwrap_err(), expected);
    }
}
