use review_to_md::cli::issue::{issue_to_markdown, IssueCommand, IssueFormatCommand, IssueSubcommand};
use review_to_md::cli::query::{Query, QueryCommand};
use review_to_md::cli::review::{ArgsRoute, ReviewCommand, ReviewSubcommand};
use review_to_md::cli::review_format::{comments_to_markdown, fetch_local_comments, ReviewFormatCommand};
use review_to_md::cli::review_local::ReviewLocalCommand;
use review_to_md::client::{Comment, FetchIssueClient, Issue, Label, MockGitHubClient, User};
use review_to_md::local::state::CommentsFile;
use review_to_md::repository::{GetRepoistoryInfo, MockRepository};

#[test]
fn parse_review_defaults_unknown_subcommand_to_format_argument() {
    assert_eq!(ReviewCommand::route(&["42"]), ArgsRoute::Format);
}

#[test]
fn parse_review_keeps_known_local_subcommand() {
    assert_eq!(ReviewCommand::route(&["local", "main"]), ArgsRoute::Subcommand);
    assert_eq!(ReviewCommand::route(&["format"]), ArgsRoute::Subcommand);
    assert_eq!(ReviewCommand::route(&["--help"]), ArgsRoute::Subcommand);
    assert_eq!(ReviewCommand::route(&[]), ArgsRoute::Subcommand);
}

#[test]
fn parse_issue_defaults_unknown_subcommand_to_format_argument() {
    assert_eq!(IssueCommand::route(&["42"]), ArgsRoute::Format);
    assert_eq!(IssueCommand::route(&["local"]), ArgsRoute::Format);
}

#[test]
fn parse_issue_keeps_known_format_subcommand() {
    assert_eq!(IssueCommand::route(&["format", "42"]), ArgsRoute::Subcommand);
    assert_eq!(IssueCommand::route(&["help"]), ArgsRoute::Subcommand);
}

#[test]
fn review_requirements_by_subcommand() {
    let local = ReviewCommand {
        command: ReviewSubcommand::Local(ReviewLocalCommand {
            refs: vec![],
            port: None,
            bind: None,
            output: "review-comments.json".to_string(),
            no_open: true,
            force: false,
        }),
    };
    assert_eq!(local.required_executables(false), vec!["git"]);
    let format = ReviewCommand { command: ReviewSubcommand::Format(ReviewFormatCommand::new()) };
    assert_eq!(format.required_executables(false), vec!["gh", "git"]);
}

#[test]
fn issue_requirements() {
    let with_repo = IssueCommand {
        command: IssueSubcommand::Format(IssueFormatCommand { issue_number: 1, repo: Some("o/r".to_string()) }),
    };
    assert_eq!(with_repo.required_executables(), vec!["gh"]);
    let without = IssueCommand { command: IssueSubcommand::Format(IssueFormatCommand { issue_number: 1, repo: None }) };
    assert_eq!(without.required_executables(), vec!["gh", "git"]);
}

struct OneIssue;

impl FetchIssueClient for OneIssue {
    fn fetch_issue(&self, owner: &str, repo: &str, issue_number: u32) -> Result<Issue, String> {
        if owner == "auto-owner" && repo == "auto-repo" && issue_number == 99 {
            Ok(Issue {
                id: "issue-456".to_string(),
                number: 99,
                title: "Feature request".to_string(),
                body: Some("Please add this feature.".to_string()),
                author: Some(User { login: "user".to_string() }),
                state: "OPEN".to_string(),
                labels: vec![],
            })
        } else {
            Err("Issue not found".to_string())
        }
    }
}

impl GetRepoistoryInfo for OneIssue {
    fn get_github_owner_and_repo(&self) -> Result<(String, String), String> {
        Ok(("auto-owner".to_string(), "auto-repo".to_string()))
    }
}

#[test]
fn test_issue_command_auto_detect_repo() {
    let cmd = IssueCommand { command: IssueSubcommand::Format(IssueFormatCommand { issue_number: 99, repo: None }) };
    let out = cmd.run(&OneIssue, &OneIssue).unwrap();
    assert!(out.starts_with("# Issue #99: Feature request\n"));
    assert!(out.contains("Please add this feature."));
    let bad = IssueCommand {
        command: IssueSubcommand::Format(IssueFormatCommand { issue_number: 99, repo: Some("noslash".to_string()) }),
    };
    assert!(bad.run(&OneIssue, &OneIssue).is_err());
}

#[test]
fn issue_markdown_lists_labels() {
    let issue = Issue {
        id: "i".to_string(),
        number: 7,
        title: "T".to_string(),
        body: None,
        author: None,
        state: "OPEN".to_string(),
        labels: vec![Label { name: "bug".to_string() }, Label { name: "ui".to_string() }],
    };
    let md = issue_to_markdown(&issue);
    assert_eq!(
        md,
        "# Issue #7: T\n\n**State:** OPEN\n**Labels:** bug, ui\n\n## Description\n\n*No description provided.*\n"
    );
    let by = Issue {
        author: Some(User { login: "reporter".to_string() }),
        body: Some("Steps".to_string()),
        state: "CLOSED".to_string(),
        labels: vec![],
        ..issue
    };
    assert_eq!(
        issue_to_markdown(&by),
        "# Issue #7: T\n\n**State:** CLOSED\n**Author:** @reporter\n\n## Description\n\nSteps\n"
    );
}

#[test]
fn queries_are_read_with_their_arguments() {
    let q = QueryCommand { query: "GetCurrentUser".to_string(), args: vec![] };
    assert!(matches!(q.parse(), Ok(Query::GetCurrentUser)));
    let q = QueryCommand { query: "GetCurrentUser".to_string(), args: vec!["x".to_string()] };
    assert_eq!(q.parse().err().unwrap(), "GetCurrentUser does not expect any arguments");
    let q = QueryCommand {
        query: "ListReviews".to_string(),
        args: vec!["o".to_string(), "r".to_string(), "12".to_string()],
    };
    match q.parse() {
        Ok(Query::ListReviews { owner, repo, pr_number }) => {
            assert_eq!((owner.as_str(), repo.as_str(), pr_number), ("o", "r", 12));
        }
        _ => panic!("expected ListReviews"),
    }
    let q = QueryCommand {
        query: "ListReviews".to_string(),
        args: vec!["o".to_string(), "r".to_string(), "".to_string()],
    };
    assert_eq!(q.parse().err().unwrap(), "cannot parse integer from empty string");
    let q = QueryCommand { query: "ListPullRequests".to_string(), args: vec!["o".to_string()] };
    assert_eq!(q.parse().err().unwrap(), "ListPullRequests should be called with owner, repo");
    let q = QueryCommand { query: "Nope".to_string(), args: vec![] };
    assert_eq!(q.parse().err().unwrap(), "unkown command \"Nope\"");
}

fn local_comment(path: &str, line: Option<u32>, body: &str) -> Comment {
    Comment {
        id: "1".to_string(),
        path: path.to_string(),
        line,
        body: body.to_string(),
        diff_hunk: String::new(),
        user: User { login: "me".to_string() },
        is_minimized: false,
    }
}

#[test]
fn local_comments_get_their_hunks() {
    let raw = "diff --git a/m.rs b/m.rs\nindex 1111111..2222222 100644\n--- a/m.rs\n+++ b/m.rs\n@@ -1,2 +1,2 @@\n keep\n-old\n+new\n";
    let file = CommentsFile {
        version: 1,
        start_ref: "main".to_string(),
        start_sha: String::new(),
        end_ref: "HEAD".to_string(),
        end_sha: String::new(),
        raw_diff: raw.to_string(),
        comments: vec![
            local_comment("m.rs", Some(2), "on the new line"),
            local_comment("__global__", None, "about everything"),
            local_comment("other.rs", Some(1), "not in the diff"),
        ],
        viewed_files: vec![],
    };
    let comments = fetch_local_comments(file).unwrap();
    assert_eq!(comments[0].diff_hunk, "@@ -1,2 +1,2 @@\n keep\n-old\n+new");
    assert_eq!(comments[1].diff_hunk, "");
    assert_eq!(comments[2].diff_hunk, "");
    let md = comments_to_markdown(comments);
    assert!(md.contains("on the new line"));
    assert!(md.contains("about everything"));
}

#[test]
fn local_session_without_comments_is_empty() {
    let file = CommentsFile {
        version: 1,
        start_ref: String::new(),
        start_sha: String::new(),
        end_ref: String::new(),
        end_sha: String::new(),
        raw_diff: "not a diff".to_string(),
        comments: vec![],
        viewed_files: vec![],
    };
    assert!(fetch_local_comments(file).unwrap().is_empty());
    assert_eq!(comments_to_markdown(vec![]), "");
}

#[test]
fn local_format_refuses_remote_options() {
    let mut cmd = ReviewFormatCommand::new();
    cmd.pr_or_file = Some("review-comments.json".to_string());
    cmd.author = Some("x".to_string());
    assert!(cmd.should_format_local_review(true));
    assert!(!cmd.should_format_local_review(false));
    assert_eq!(
        cmd.ensure_no_remote_options_for_local_format().unwrap_err(),
        "Cannot combine local review formatting with remote review options such as --repo, --review, --author, or --remote"
    );
}

fn minimized_session(first_minimized: bool, first_body: &str, second_body: &str) -> CommentsFile {
    let mut first = local_comment("test.rs", Some(1), first_body);
    first.is_minimized = first_minimized;
    first.user = User { login: "user1".to_string() };
    let mut second = local_comment("test.rs", Some(2), second_body);
    second.id = "2".to_string();
    second.is_minimized = true;
    second.user = User { login: "user2".to_string() };
    CommentsFile {
        version: 1,
        start_ref: "HEAD~1".to_string(),
        start_sha: "abc123".to_string(),
        end_ref: "HEAD".to_string(),
        end_sha: "def456".to_string(),
        raw_diff: String::new(),
        comments: vec![first, second],
        viewed_files: vec![],
    }
}

#[test]
fn format_test_format_filters_minimized_comments() {
    let file = minimized_session(false, "Active comment", "Minimized comment");
    let comments = fetch_local_comments(file).unwrap();
    assert_eq!(comments.len(), 1);
    assert_eq!(comments[0].body, "Active comment");
    assert!(!comments[0].is_minimized);
}

#[test]
fn test_format_all_minimized_comments() {
    let file = minimized_session(true, "Minimized comment 1", "Minimized comment 2");
    let comments = fetch_local_comments(file).unwrap();
    assert!(comments.is_empty());
    assert_eq!(comments_to_markdown(comments), "");
}

#[test]
fn review_format_test_format_filters_minimized_comments() {
    let file = minimized_session(false, "Active comment", "Minimized comment");
    let mut cmd = ReviewFormatCommand::new();
    cmd.pr_or_file = Some("review-comments.json".to_string());
    let client = MockGitHubClient::new("foo");
    let repository = MockRepository::new("foo", "bar", "baz");
    let active = minimized_session(false, "Active comment", "Minimized comment").comments.remove(0);
    let md = cmd.run(&client, &repository, Some(file)).unwrap();
    assert_eq!(md, comments_to_markdown(vec![active]));
    assert!(!md.contains("Minimized comment"));
}
