use review_to_md::executable::{check_executable, executable_check};
use review_to_md::language::{detect_language, get_comment_prefix, get_comment_suffix};

#[test]
fn test_detect_language() {
    assert_eq!(detect_language("file.rs"), "rust");
    assert_eq!(detect_language("file.py"), "python");
    assert_eq!(detect_language("file.md"), "markdown");
    assert_eq!(detect_language("path/to/file.js"), "javascript");
    assert_eq!(detect_language("unknown.xyz"), "");
}

#[test]
fn test_comment_syntax() {
    assert_eq!(get_comment_prefix("rust"), "//");
    assert_eq!(get_comment_prefix("python"), "#");
    assert_eq!(get_comment_prefix("markdown"), "<!--");

    assert_eq!(get_comment_suffix("rust"), "");
    assert_eq!(get_comment_suffix("python"), "");
    assert_eq!(get_comment_suffix("markdown"), " -->");
}

#[test]
fn language_of_paths_without_extension() {
    assert_eq!(detect_language("Makefile"), "");
    assert_eq!(detect_language("dir.rs/file"), "");
    assert_eq!(detect_language("a.tsx"), "typescript");
}

#[test]
fn missing_executable_message() {
    assert!(executable_check("git", true).is_ok());
    assert_eq!(
        executable_check("gh", false).unwrap_err(),
        "'gh' executable not found in PATH. Please install gh and ensure it is available in your PATH."
    );
}

#[test]
fn a_program_that_does_not_exist_is_reported() {
    assert_eq!(
        check_executable("no-such-program-for-review-to-md").unwrap_err(),
        "'no-such-program-for-review-to-md' executable not found in PATH. Please install no-such-program-for-review-to-md and ensure it is available in your PATH."
    );
}
