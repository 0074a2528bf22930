use review_to_md::apply::{
    apply_comments_to_lines, format_comment_for_insertion, print_apply_result, render_lines,
    skip_comments_for_missing_file, ApplyResult, SkippedComment, Truncated,
};
use review_to_md::client::{Comment, User};
use review_to_md::formatting::get_indentation;

fn create_test_comment(path: &str, line: Option<u32>, body: &str, user: &str) -> Comment {
    Comment {
        id: String::new(),
        path: path.to_string(),
        line,
        body: body.to_string(),
        diff_hunk: String::new(),
        user: User {
            login: user.to_string(),
        },
        is_minimized: false,
    }
}

/// Applies the comments of one file to its content, as the command does
/// once it has read the file, and gives the new content and the result.
fn apply_to_content(path: &str, content: &str, comments: &[Comment]) -> (String, ApplyResult) {
    let mut result = ApplyResult::default();
    let (lines, applied) = apply_comments_to_lines(path, content, comments, &mut result.comments_skipped);
    result.settle_file(applied);
    (render_lines(&lines), result)
}

#[test]
fn test_format_comment_for_insertion_rust() {
    let comment = create_test_comment("test.rs", Some(10), "Fix this bug", "octocat");
    let result = format_comment_for_insertion(&comment, "    ", "//", "");
    assert_eq!(
        result,
        "    // <review user=\"octocat\">\n    // Fix this bug\n    // </review>"
    );
}

#[test]
fn test_format_comment_for_insertion_python() {
    let comment = create_test_comment("test.py", Some(10), "Add docstring", "octocat");
    let result = format_comment_for_insertion(&comment, "  ", "#", "");
    assert_eq!(
        result,
        "  # <review user=\"octocat\">\n  # Add docstring\n  # </review>"
    );
}

#[test]
fn test_format_comment_multiline() {
    let comment = create_test_comment("test.rs", Some(10), "Line 1\nLine 2\nLine 3", "octocat");
    let result = format_comment_for_insertion(&comment, "", "//", "");
    assert_eq!(
        result,
        "// <review user=\"octocat\">\n// Line 1\n// Line 2\n// Line 3\n// </review>"
    );
}

#[test]
fn test_format_comment_html() {
    let comment = create_test_comment("test.html", Some(5), "Add alt text", "octocat");
    let result = format_comment_for_insertion(&comment, "  ", "<!--", " -->");
    assert_eq!(
        result,
        "  <!-- <review user=\"octocat\"> -->\n  <!-- Add alt text -->\n  <!-- </review> -->"
    );
}

#[test]
fn format_comment_keeps_empty_body_lines() {
    let comment = create_test_comment("test.rs", Some(1), "a\n\nb", "r");
    let result = format_comment_for_insertion(&comment, "", "//", "");
    assert_eq!(result, "// <review user=\"r\">\n// a\n//\n// b\n// </review>");
}

#[test]
fn test_get_indentation() {
    assert_eq!(get_indentation("    code"), "    ");
    assert_eq!(get_indentation("\t\tcode"), "\t\t");
    assert_eq!(get_indentation("code"), "");
    assert_eq!(get_indentation("  \t  code"), "  \t  ");
}

#[test]
fn test_truncated_display_short() {
    let result = Truncated::new("short text", 50).to_string();
    assert_eq!(result, "short text");
}

#[test]
fn test_truncated_display_long() {
    let result = Truncated::new("this is a very long text that exceeds the limit", 20).to_string();
    assert_eq!(result, "this is a very long ...");
}

#[test]
fn test_truncated_display_multiline() {
    let result = Truncated::new("first line\nsecond line", 50).to_string();
    assert_eq!(result, "first line");
}

#[test]
fn truncated_counts_bytes_of_multibyte_text() {
    assert_eq!(Truncated::new("ééé", 4).to_string(), "éé...");
    assert!(!review_to_md::apply::is_truncatable("ééé", 3));
}

#[test]
fn test_apply_preserves_indentation() {
    let comments = vec![create_test_comment("test.rs", Some(2), "Consider renaming", "octocat")];
    let (content, result) = apply_to_content("test.rs", "fn main() {\n    let x = 1;\n}\n", &comments);
    assert_eq!(result.files_modified, 1);
    assert_eq!(result.comments_applied, 1);
    assert_eq!(
        content,
        "fn main() {\n    let x = 1;\n    // <review user=\"octocat\">\n    // Consider renaming\n    // </review>\n}\n"
    );
}

#[test]
fn test_apply_multiple_comments_same_file() {
    let comments = vec![
        create_test_comment("test.rs", Some(1), "Comment on line 1", "alice"),
        create_test_comment("test.rs", Some(3), "Comment on line 3", "bob"),
    ];
    let (content, result) = apply_to_content("test.rs", "line 1\nline 2\nline 3\nline 4\n", &comments);
    assert_eq!(result.files_modified, 1);
    assert_eq!(result.comments_applied, 2);
    assert_eq!(
        content,
        "line 1\n// <review user=\"alice\">\n// Comment on line 1\n// </review>\nline 2\nline 3\n// <review user=\"bob\">\n// Comment on line 3\n// </review>\nline 4\n"
    );
}

#[test]
fn test_apply_skips_missing_file() {
    let comments = vec![create_test_comment("nonexistent.rs", Some(1), "Comment", "octocat")];
    let mut result = ApplyResult::default();
    skip_comments_for_missing_file("nonexistent.rs", &comments, &mut result.comments_skipped);
    assert_eq!(result.files_modified, 0);
    assert_eq!(result.comments_applied, 0);
    assert_eq!(result.comments_skipped.len(), 1);
    assert_eq!(result.comments_skipped[0].reason, "File not found");
}

#[test]
fn test_apply_skips_comment_without_line() {
    let comments = vec![create_test_comment("test.rs", None, "General comment", "octocat")];
    let (content, result) = apply_to_content("test.rs", "fn main() {}\n", &comments);
    assert_eq!(result.files_modified, 0);
    assert_eq!(result.comments_applied, 0);
    assert_eq!(result.comments_skipped.len(), 1);
    assert_eq!(result.comments_skipped[0].reason, "Comment has no line number");
    assert_eq!(content, "fn main() {}\n");
}

#[test]
fn test_apply_skips_line_out_of_bounds() {
    let comments = vec![create_test_comment("test.rs", Some(100), "Comment", "octocat")];
    let (_, result) = apply_to_content("test.rs", "line 1\nline 2\n", &comments);
    assert_eq!(result.files_modified, 0);
    assert_eq!(result.comments_applied, 0);
    assert_eq!(result.comments_skipped.len(), 1);
    assert!(result.comments_skipped[0].reason.contains("out of bounds"));
    assert_eq!(result.comments_skipped[0].reason, "Line 100 out of bounds (file has 2 lines)");
}

#[test]
fn apply_skips_line_zero() {
    let comments = vec![create_test_comment("test.py", Some(0), "x", "r")];
    let (_, result) = apply_to_content("test.py", "a\n", &comments);
    assert_eq!(result.comments_applied, 0);
    assert_eq!(result.comments_skipped[0].reason, "Line 0 out of bounds (file has 1 lines)");
}

#[test]
fn test_print_apply_result_with_skipped() {
    let result = ApplyResult {
        files_modified: 2,
        comments_applied: 5,
        comments_skipped: vec![
            SkippedComment {
                path: "missing.rs".to_string(),
                reason: "File not found".to_string(),
                body_preview: "Some comment".to_string(),
            },
            SkippedComment {
                path: "test.rs".to_string(),
                reason: "Line 100 out of bounds".to_string(),
                body_preview: "Another comment".to_string(),
            },
        ],
    };
    assert_eq!(
        print_apply_result(&result),
        "Applied 5 comment(s) to 2 file(s)\n\nSkipped 2 comment(s):\n  - missing.rs: File not found (Some comment)\n  - test.rs: Line 100 out of bounds (Another comment)\n"
    );
}

#[test]
fn test_print_apply_result_no_skipped() {
    let result = ApplyResult {
        files_modified: 1,
        comments_applied: 3,
        comments_skipped: vec![],
    };
    assert_eq!(print_apply_result(&result), "Applied 3 comment(s) to 1 file(s)\n");
}

#[test]
fn a_file_is_written_and_counted_only_with_a_comment_in_it() {
    let mut result = ApplyResult::default();
    assert!(!result.settle_file(0));
    assert_eq!((result.files_modified, result.comments_applied), (0, 0));
    assert!(result.settle_file(3));
    assert!(result.settle_file(1));
    assert!(!result.settle_file(0));
    assert_eq!((result.files_modified, result.comments_applied), (2, 4));
}
