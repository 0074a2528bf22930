use review_to_md::client::{Comment, User};
use review_to_md::formatting::{format_comments_as_markdown, group_comments_by_file};
use review_to_md::number::parse_unsigned_str;

fn comment(path: &str, line: Option<u32>, body: &str) -> Comment {
    Comment {
        id: String::new(),
        path: path.to_string(),
        line,
        body: body.to_string(),
        diff_hunk: "@@ -1,3 +1,3 @@\n a\n-b\n+c".to_string(),
        user: User { login: "u".to_string() },
        is_minimized: false,
    }
}

#[test]
fn grouping_keeps_every_comment_under_its_file() {
    let comments = vec![
        comment("b.rs", Some(1), "one"),
        comment("a.rs", Some(2), "two"),
        comment("b.rs", Some(3), "three"),
        comment("__global__", None, "four"),
    ];
    let groups = group_comments_by_file(comments);
    let keys: Vec<&str> = groups.iter().map(|g| g.0.as_str()).collect();
    assert_eq!(keys, vec!["b.rs", "a.rs", "__global__"]);
    assert_eq!(groups.iter().map(|g| g.1.len()).sum::<usize>(), 4);
    assert_eq!(groups[0].1[0].body, "one");
    assert_eq!(groups[0].1[1].body, "three");
    assert!(groups.iter().all(|g| g.1.iter().all(|c| c.path == g.0)));
}

#[test]
fn markdown_lists_files_in_path_order_with_global_comments_first() {
    let groups = group_comments_by_file(vec![
        comment("b.rs", Some(2), "on b"),
        comment("a.rs", Some(2), "on a"),
        comment("__global__", None, "overall"),
    ]);
    let md = format_comments_as_markdown(&groups);
    let overall = md.find("overall").unwrap();
    let on_a = md.find("on a").unwrap();
    let on_b = md.find("on b").unwrap();
    assert!(overall < on_a && on_a < on_b);
}

#[test]
fn numbers_read_as_str_parse_reads_them() {
    assert_eq!(parse_unsigned_str("42", u32::MAX), Ok(42));
    assert_eq!(parse_unsigned_str("+7", u32::MAX), Ok(7));
    assert_eq!(parse_unsigned_str("4294967295", u32::MAX), Ok(u32::MAX));
    assert_eq!(parse_unsigned_str("4294967296", u32::MAX).unwrap_err(), "number too large to fit in target type");
    assert_eq!(parse_unsigned_str("99999999999x", u32::MAX).unwrap_err(), "number too large to fit in target type");
    assert_eq!(parse_unsigned_str("12x", u32::MAX).unwrap_err(), "invalid digit found in string");
    assert_eq!(parse_unsigned_str("-1", u32::MAX).unwrap_err(), "invalid digit found in string");
    assert_eq!(parse_unsigned_str("+", u32::MAX).unwrap_err(), "invalid digit found in string");
    assert_eq!(parse_unsigned_str("", u32::MAX).unwrap_err(), "cannot parse integer from empty string");
    assert_eq!(parse_unsigned_str("65535", 0xffff), Ok(65535));
    assert_eq!(parse_unsigned_str("65536", 0xffff).unwrap_err(), "number too large to fit in target type");
    for n in [0u32, 9, 10, 65535, 4_000_000_000] {
        assert_eq!(parse_unsigned_str(&n.to_string(), u32::MAX), Ok(n));
        assert_eq!(n.to_string().parse::<u32>().ok(), parse_unsigned_str(&n.to_string(), u32::MAX).ok());
    }
}

#[test]
fn test_extract_code_from_diff_hunk() {
    let diff_hunk = "@@ -55,6 +59,8 @@ pub struct BuildConfig {
     pub output: Option<PathBuf>,
     pub document_store: ObjectStore,
     pub object_stores: BTreeMap<String, ObjectStore>,
+    /// HTML sanitization configuration
+    pub sanitizer: SanitizerConfig,";
    let (lines, _, _) = review_to_md::side_by_side_diff::parse_diff_hunk_with_line_numbers(diff_hunk, None);
    let result: Vec<String> = lines.into_iter().map(|l| l.content).collect();
    assert!(result.iter().any(|l| l.contains("pub output: Option<PathBuf>")));
    assert!(result.iter().any(|l| l.contains("HTML sanitization configuration")));
    assert!(result.iter().any(|l| l.contains("pub sanitizer: SanitizerConfig")));
}
