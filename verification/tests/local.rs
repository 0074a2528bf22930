use review_to_md::local::assets::{asset_path, mime_type};
use review_to_md::cli::review_local::{
    validate_and_prepare_session, ReviewLocalCommand, SessionPlan, DEFAULT_BIND, DEFAULT_PORT,
};
use review_to_md::client::{Comment, User};
use review_to_md::line_diff::SideBySideDiff as FileDiffs;
use review_to_md::local::handlers::{
    create_comment, create_comment_with_id, delete_comment, get_session, set_path_status,
    update_comment, AppError, CreateCommentRequest, SetPathStatusRequest, UpdateCommentRequest,
};
use review_to_md::local::highlighting::{highlight_code, render_diff};
use review_to_md::local::refspec::{branch_of_origin_head, choose_base_branch, sha_of_rev_parse, RefSpec};
use review_to_md::local::state::{AppState, CommentsFile};
use review_to_md::side_by_side_diff::{LineStatus, SideBySideDiff};

fn comment(id: &str, body: &str) -> Comment {
    Comment {
        id: id.to_string(),
        path: "src/lib.rs".to_string(),
        line: Some(3),
        body: body.to_string(),
        diff_hunk: String::new(),
        user: User { login: "me".to_string() },
        is_minimized: false,
    }
}

fn state() -> AppState {
    let refspec = RefSpec::parse("main", "HEAD").unwrap();
    AppState::new(refspec, FileDiffs { files: vec![] }, String::new(), vec![], vec![])
}

fn test_command() -> ReviewLocalCommand {
    ReviewLocalCommand {
        refs: Vec::new(),
        port: None,
        bind: None,
        output: "review-comments.json".to_string(),
        no_open: false,
        force: false,
    }
}

#[test]
fn test_refspec_parse() {
    let refspec = RefSpec::parse("main", "HEAD").unwrap();
    assert_eq!(refspec.start_ref, "main");
    assert_eq!(refspec.end_ref, "HEAD");
    assert!(refspec.start_sha.is_empty());
    assert!(refspec.end_sha.is_empty());
}

#[test]
fn test_refspec_parse_head_tilde() {
    let refspec = RefSpec::parse("HEAD~5", "HEAD~2").unwrap();
    assert_eq!(refspec.start_ref, "HEAD~5");
    assert_eq!(refspec.end_ref, "HEAD~2");
}

#[test]
fn test_refspec_parse_range() {
    let refspec = RefSpec::parse("main", "feature").unwrap();
    assert_eq!(refspec.start_ref, "main");
    assert_eq!(refspec.end_ref, "feature");
}

#[test]
fn test_refspec_diff_args() {
    let refspec = RefSpec {
        start_ref: "main".to_string(),
        end_ref: "feature".to_string(),
        start_sha: "abc123".to_string(),
        end_sha: "def456".to_string(),
    };
    assert_eq!(refspec.diff_args(), vec!["main", "feature"]);
}

#[test]
fn base_branch_of_origin_head() {
    assert_eq!(branch_of_origin_head("refs/remotes/origin/main\n"), Some("main".to_string()));
    assert_eq!(branch_of_origin_head("refs/heads/main"), None);
    assert_eq!(sha_of_rev_parse(" abc123\n"), "abc123");
}

#[test]
fn bind_address_prefers_cli() {
    let command = ReviewLocalCommand { bind: Some("0.0.0.0".to_string()), ..test_command() };
    assert_eq!(command.bind_address(Some("127.0.0.2".to_string())).unwrap(), "0.0.0.0");
}

#[test]
fn bind_address_uses_env_then_default() {
    assert_eq!(test_command().bind_address(Some("127.0.0.2".to_string())).unwrap(), "127.0.0.2");
    assert_eq!(test_command().bind_address(None).unwrap(), DEFAULT_BIND);
}

#[test]
fn port_prefers_cli() {
    let command = ReviewLocalCommand { port: Some(9000), ..test_command() };
    assert_eq!(command.port(Some("9001".to_string())).unwrap(), 9000);
}

#[test]
fn port_uses_env_then_default() {
    assert_eq!(test_command().port(Some("9001".to_string())).unwrap(), 9001);
    assert_eq!(test_command().port(None).unwrap(), DEFAULT_PORT);
}

#[test]
fn port_rejects_invalid_env_value() {
    let error = test_command().port(Some("not-a-port".to_string())).unwrap_err();
    assert!(error.contains("REPO_TO_MD_PORT"));
    assert_eq!(
        error,
        "Failed to parse REPO_TO_MD_PORT=\"not-a-port\" as a valid TCP port number: invalid digit found in string"
    );
    let error = test_command().port(Some("70000".to_string())).unwrap_err();
    assert!(error.ends_with("number too large to fit in target type"));
}

#[test]
fn refs_of_the_command() {
    assert_eq!(test_command().ref_range().unwrap(), (None, "HEAD".to_string()));
    let one = ReviewLocalCommand { refs: vec!["main".to_string()], ..test_command() };
    assert_eq!(one.ref_range().unwrap(), (Some("main".to_string()), "HEAD".to_string()));
    let two = ReviewLocalCommand { refs: vec!["a".to_string(), "b".to_string()], ..test_command() };
    assert_eq!(two.ref_range().unwrap(), (Some("a".to_string()), "b".to_string()));
    let three = ReviewLocalCommand {
        refs: vec!["a".to_string(), "b".to_string(), "c".to_string()],
        ..test_command()
    };
    assert_eq!(three.ref_range().unwrap_err(), "Invalid call cannot pass more than two refs, got 3");
}

#[test]
fn local_review_refuses_a_dirty_working_copy_at_head() {
    let result = test_command().check_working_directory(true);
    assert!(result.is_err());
    let err = result.unwrap_err();
    assert!(err.contains("uncommitted changes"));
    let forced = ReviewLocalCommand { force: true, ..test_command() };
    assert!(forced.check_working_directory(true).is_ok());
    let one = ReviewLocalCommand { refs: vec!["main".to_string()], ..test_command() };
    assert!(one.check_working_directory(true).is_err());
    let to_head = ReviewLocalCommand {
        refs: vec!["main".to_string(), "HEAD".to_string()],
        ..test_command()
    };
    assert!(to_head.requires_clean_working_directory());
    assert!(to_head.check_working_directory(true).unwrap_err().contains("uncommitted changes"));
    let forced_to_head = ReviewLocalCommand { force: true, ..to_head };
    assert!(forced_to_head.check_working_directory(true).is_ok());
    let two = ReviewLocalCommand { refs: vec!["a".to_string(), "b".to_string()], ..test_command() };
    assert!(!two.requires_clean_working_directory());
    assert!(two.check_working_directory(true).is_ok());
    assert!(test_command().check_working_directory(false).is_ok());
}

fn saved(start_sha: &str, end_sha: &str, raw_diff: &str) -> CommentsFile {
    CommentsFile {
        version: 1,
        start_ref: "main".to_string(),
        start_sha: start_sha.to_string(),
        end_ref: "HEAD".to_string(),
        end_sha: end_sha.to_string(),
        raw_diff: raw_diff.to_string(),
        comments: vec![],
        viewed_files: vec![],
    }
}

#[test]
fn session_plans() {
    let refspec = RefSpec::parse("main", "HEAD").unwrap().with_shas("a".to_string(), "b".to_string());
    assert!(matches!(validate_and_prepare_session(None, &refspec, false), Ok(SessionPlan::Generate)));
    let same = saved("a", "b", "diff --git a/x b/x\n");
    match validate_and_prepare_session(Some(&same), &refspec, false) {
        Ok(SessionPlan::UseStored(d)) => assert_eq!(d, "diff --git a/x b/x\n"),
        _ => panic!("expected the stored diff"),
    }
    let empty = saved("a", "b", "");
    assert!(matches!(validate_and_prepare_session(Some(&empty), &refspec, false), Ok(SessionPlan::Generate)));
    let other = saved("a", "c", "x");
    assert!(matches!(validate_and_prepare_session(Some(&other), &refspec, true), Ok(SessionPlan::Regenerate)));
    match validate_and_prepare_session(Some(&other), &refspec, false) {
        Err(e) => assert_eq!(
            e,
            "Session has changed. Use --force to regenerate the session and discard existing comments."
        ),
        _ => panic!("expected an error"),
    }
}

#[test]
fn comments_are_added_updated_and_deleted() {
    let mut s = state();
    let added = s.add_comment(comment("1", "first"));
    assert_eq!(added.id, "1");
    s.add_comment(comment("2", "second"));
    let updated = s.update_comment("2", "changed".to_string()).unwrap();
    assert_eq!(updated.body, "changed");
    assert_eq!(s.get_comments()[1].body, "changed");
    assert!(s.update_comment("3", "x".to_string()).is_none());
    assert!(s.delete_comment("1"));
    assert!(!s.delete_comment("1"));
    let left = s.get_comments();
    assert_eq!(left.len(), 1);
    assert_eq!(left[0].id, "2");
}

#[test]
fn files_are_marked_viewed_once() {
    let mut s = state();
    assert!(s.mark_file_viewed("a.rs".to_string()));
    assert!(!s.mark_file_viewed("a.rs".to_string()));
    assert!(s.mark_file_viewed("b.rs".to_string()));
    assert_eq!(s.get_viewed_files(), vec!["a.rs", "b.rs"]);
    assert!(s.mark_file_unviewed("a.rs"));
    assert!(!s.mark_file_unviewed("a.rs"));
    assert_eq!(s.get_viewed_files(), vec!["b.rs"]);
}

#[test]
fn session_file_holds_the_state() {
    let mut s = state();
    s.add_comment(comment("1", "first"));
    s.mark_file_viewed("a.rs".to_string());
    let file = s.comments_file();
    assert_eq!(file.version, 1);
    assert_eq!(file.start_ref, "main");
    assert_eq!(file.end_ref, "HEAD");
    assert_eq!(file.comments.len(), 1);
    assert_eq!(file.viewed_files, vec!["a.rs"]);
}

#[test]
fn api_handlers() {
    let mut s = state();
    let req = CreateCommentRequest {
        path: "x.rs".to_string(),
        line: Some(1),
        body: "hello".to_string(),
        user: "me".to_string(),
        diff_hunk: String::new(),
    };
    let (status, resp) = create_comment_with_id(&mut s, req, "id-1".to_string());
    assert_eq!(status, 201);
    assert_eq!(resp.comment.id, "id-1");
    assert_eq!(resp.comment.user.login, "me");
    let req = CreateCommentRequest {
        path: "y.rs".to_string(),
        line: None,
        body: "global".to_string(),
        user: "me".to_string(),
        diff_hunk: String::new(),
    };
    let (status, resp) = create_comment(&mut s, req);
    assert_eq!(status, 201);
    assert_eq!(resp.comment.id.len(), 36);
    assert_ne!(resp.comment.id, "id-1");
    let updated = update_comment(&mut s, "id-1", UpdateCommentRequest { body: "bye".to_string() });
    assert_eq!(updated.ok().unwrap().comment.body, "bye");
    match update_comment(&mut s, "nope", UpdateCommentRequest { body: "x".to_string() }) {
        Err(AppError::NotFound(m)) => assert_eq!(m, "Comment nope not found"),
        _ => panic!("expected not found"),
    }
    assert_eq!(delete_comment(&mut s, "id-1").ok(), Some(204));
    match delete_comment(&mut s, "id-1") {
        Err(e) => assert_eq!(e.into_response(), (404, "Comment id-1 not found".to_string())),
        _ => panic!("expected not found"),
    }
    assert_eq!(set_path_status(&mut s, "x.rs".to_string(), SetPathStatusRequest { viewed: true }), (204, true));
    assert_eq!(set_path_status(&mut s, "x.rs".to_string(), SetPathStatusRequest { viewed: true }), (204, false));
    assert_eq!(set_path_status(&mut s, "x.rs".to_string(), SetPathStatusRequest { viewed: false }), (204, true));
    let session = get_session(&s);
    assert_eq!(session.start_ref, "main");
    assert_eq!(session.comments.len(), 1);
    assert!(session.viewed_files.is_empty());
    assert_eq!(AppError::Internal("boom".to_string()).into_response(), (500, "boom".to_string()));
}

#[test]
fn test_highlight_code_rust() {
    let code = "fn main() {\n    let x = 42;\n}";
    let result = highlight_code(code, "rust");
    assert!(result.is_some(), "highlight_code should return Some for valid Rust");
    let lines = result.unwrap();
    assert_eq!(lines.len(), 3, "Should have 3 lines");
    assert!(lines[0].contains("<span"), "First line should contain HTML spans for syntax highlighting");
    assert!(lines[0].contains("fn"), "First line should contain 'fn' keyword");
}

#[test]
fn test_highlight_code_unknown_language() {
    let result = highlight_code("some code", "unknown_lang_xyz");
    assert!(result.is_none(), "highlight_code should return None for unknown language");
}

#[test]
fn test_highlight_code_javascript() {
    let result = highlight_code("const x = 1;", "javascript");
    assert!(result.is_some(), "highlight_code should return Some for JavaScript");
    let lines = result.unwrap();
    assert!(lines[0].contains("<span"), "Should contain HTML spans for syntax highlighting");
}

#[test]
fn rendered_diff_pairs_highlights_with_sides() {
    let raw = "diff --git a/m.xyz b/m.xyz\nindex 1111111..2222222 100644\n--- a/m.xyz\n+++ b/m.xyz\n@@ -1,2 +1,2 @@\n keep\n-old\n+new\n";
    let diff = SideBySideDiff::parse(raw).unwrap();
    let files = render_diff(&diff);
    assert_eq!(files.len(), 1);
    let f = &files[0];
    assert_eq!(f.display_path, "m.xyz");
    assert_eq!(f.previous_path, None);
    let lines = &f.chunks[0].lines;
    assert_eq!(lines.len(), 3);
    assert_eq!(lines[0].status, LineStatus::Context);
    assert_eq!(lines[1].status, LineStatus::Removed);
    assert_eq!(lines[1].from, "old");
    assert_eq!(lines[2].status, LineStatus::Added);
    assert_eq!(lines[2].to, "new");
    // No language for this extension: nothing is highlighted.
    assert!(lines.iter().all(|l| l.from_highlighted_html.is_none() && l.to_highlighted_html.is_none()));
}

#[test]
fn rendered_rust_diff_is_highlighted_on_each_side() {
    let raw = "diff --git a/m.rs b/m.rs\nindex 1111111..2222222 100644\n--- a/m.rs\n+++ b/m.rs\n@@ -1,2 +1,2 @@\n fn a() {}\n-fn b() {}\n+fn c() {}\n";
    let diff = SideBySideDiff::parse(raw).unwrap();
    let files = render_diff(&diff);
    let lines = &files[0].chunks[0].lines;
    assert!(lines[0].from_highlighted_html.is_some() && lines[0].to_highlighted_html.is_some());
    assert!(lines[1].from_highlighted_html.is_some() && lines[1].to_highlighted_html.is_none());
    assert!(lines[2].from_highlighted_html.is_none() && lines[2].to_highlighted_html.is_some());
}

#[test]
fn static_asset_paths_and_types() {
    assert_eq!(asset_path("/"), "index.html");
    assert_eq!(asset_path(""), "index.html");
    assert_eq!(asset_path("//app.js"), "app.js");
    assert_eq!(asset_path("/css/site.css"), "css/site.css");
    assert_eq!(mime_type("app.js"), "application/javascript");
    assert_eq!(mime_type("index.html"), "text/html");
    assert_eq!(mime_type("site.css"), "text/css");
    assert_eq!(mime_type("logo.png"), "application/octet-stream");
}

#[test]
fn adding_then_deleting_a_comment_restores_the_comments() {
    let mut s = state();
    s.add_comment(comment("1", "first"));
    let before: Vec<String> = s.get_comments().iter().map(|c| c.body.clone()).collect();
    s.add_comment(comment("new", "second"));
    assert!(s.delete_comment("new"));
    let after: Vec<String> = s.get_comments().iter().map(|c| c.body.clone()).collect();
    assert_eq!(before, after);
}

#[test]
fn comment_hunk_is_the_chunk_holding_the_line() {
    let raw = "diff --git a/m.rs b/m.rs\nindex 1111111..2222222 100644\n--- a/m.rs\n+++ b/m.rs\n@@ -1,2 +1,2 @@\n a\n-b\n+c\n@@ -20,2 +20,2 @@\n x\n-y\n+z\n";
    let diff = SideBySideDiff::parse(raw).unwrap();
    let hunk = diff.find_hunk("m.rs", 21).unwrap();
    assert_eq!(hunk.to_unified(), "@@ -20,2 +20,2 @@\n x\n-y\n+z");
    let nearest = diff.find_hunk("m.rs", 10).unwrap();
    assert_eq!(nearest.to_unified(), "@@ -1,2 +1,2 @@\n a\n-b\n+c");
    assert!(diff.find_hunk("other.rs", 1).is_none());
}

#[test]
fn parsed_chunk_writes_back_as_its_text() {
    let chunk = "@@ -3,4 +3,5 @@\n keep\n-old\n+new\n+more\n tail";
    let raw = format!("diff --git a/f.rs b/f.rs\n--- a/f.rs\n+++ b/f.rs\n{}\n", chunk);
    let diff = SideBySideDiff::parse(&raw).unwrap();
    assert_eq!(diff.files[0].chunks[0].to_unified(), chunk);
}

#[test]
fn base_branch_is_detected_in_order() {
    assert_eq!(choose_base_branch(Some("develop".to_string()), true, true).unwrap(), "develop");
    assert_eq!(choose_base_branch(None, true, true).unwrap(), "main");
    assert_eq!(choose_base_branch(None, false, true).unwrap(), "master");
    assert_eq!(
        choose_base_branch(None, false, false).unwrap_err(),
        "Could not detect base branch. Please specify a base ref explicitly.\nTried: origin/HEAD, main, master"
    );
}

#[test]
fn diff_of_one_file_writes_its_chunk_back() {
    let chunk = "@@ -1,3 +1,3 @@\n a\n-b\n+c\n d";
    let raw = format!("diff --git a/f b/f\n--- a/f\n+++ b/f\n{}", chunk);
    let diff = SideBySideDiff::parse(&raw).unwrap();
    assert_eq!(diff.files.len(), 1);
    assert_eq!(diff.files[0].chunks.len(), 1);
    assert_eq!(diff.files[0].chunks[0].to_unified(), chunk);
}
