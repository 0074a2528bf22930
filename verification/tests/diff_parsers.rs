use review_to_md::diff::chunk_header::ChunkHeader;
use review_to_md::diff::{
    parse, AtLeastOne, DiffFileHeader, DiffFileParser, DiffHeader, DiffHeaderBlock,
    DiffHeaderBlockParser, DiffHeaderParser, DiffLine, DiffLineParser, DiffLineStatus,
    ExtendedHeaderLine, ExtendedHeaderLineParser, FileHeaderLine, FileHeaderLineParser, HashParser,
    IndexLine, IndexLineParser, LineParser, Mode, ModeParser, MultilineParser,
    NewFileHeaderLine, NewFileHeaderLineParser, OldFileHeaderLine, OldFileHeaderLineParser,
    ParseError, Parser, Path, PathParser, Percentage, PercentageParser,
};
use review_to_md::diff::chunk_header::ChunkHeaderParser;

fn hash(s: &str) -> review_to_md::diff::hash::Hash {
    review_to_md::diff::hash::Hash::borrowed(s)
}

fn parse_expected<P: Parser>(p: &P, s: &str) -> P::Output {
    p.parse(s).unwrap().unwrap().0
}

fn line_expected<P: LineParser>(p: &P, s: &str) -> P::Output {
    p.parse_line(s).unwrap().unwrap()
}

fn statuses(v: Vec<DiffLineStatus>) -> AtLeastOne<DiffLineStatus> {
    AtLeastOne::try_from_vec(v).unwrap()
}

fn ranges(v: Vec<std::ops::Range<usize>>) -> AtLeastOne<std::ops::Range<usize>> {
    AtLeastOne::try_from_vec(v).unwrap()
}

fn check_hashes() {
    assert_eq!(parse_expected(&HashParser, "7626a52"), hash("7626a52"));
    assert_eq!(parse_expected(&HashParser, "16399c7"), hash("16399c7"));
    assert_eq!(parse_expected(&HashParser, "7626a5216399c7"), hash("7626a5216399c7"));
}

#[test]
fn parser_hash() {
    check_hashes();
}

#[test]
fn hash_parser_hash() {
    check_hashes();
}

fn check_modes() {
    assert_eq!(parse_expected(&ModeParser, "100644"), Mode::borrowed("100644"));
    assert_eq!(parse_expected(&ModeParser, "0644"), Mode::borrowed("0644"));
    assert_eq!(parse_expected(&ModeParser, "1234567"), Mode::borrowed("1234567"));
}

#[test]
fn parse_mode() {
    check_modes();
}

#[test]
fn mode_parse_mode() {
    check_modes();
}

#[test]
fn parse_percentage() {
    assert_eq!(parse_expected(&PercentageParser, "0%"), Percentage(0));
    assert_eq!(parse_expected(&PercentageParser, "93%"), Percentage(93));
    assert_eq!(parse_expected(&PercentageParser, "100%"), Percentage(100));
}

#[test]
fn parse_index_line() {
    assert_eq!(
        parse_expected(&IndexLineParser, "7626a52..16399c7 100644"),
        IndexLine { old: hash("7626a52"), new: hash("16399c7"), mode: Some(Mode::borrowed("100644")) },
    );
    assert_eq!(
        parse_expected(&IndexLineParser, "7626a52..16399c7"),
        IndexLine { old: hash("7626a52"), new: hash("16399c7"), mode: None },
    );
}

#[test]
fn parse_path() {
    assert_eq!(line_expected(&PathParser, "src/main.rs"), Path::borrowed("src/main.rs"));
    assert_eq!(line_expected(&PathParser, "path with spaces.md  "), Path::borrowed("path with spaces.md"));
    assert_eq!(
        line_expected(&PathParser, "\"path\\twith\\ncontrols.md\""),
        Path::owned("path\twith\ncontrols.md".to_string())
    );
    assert_eq!(
        line_expected(&PathParser, "\"quote\\\"backslash\\\\.md\""),
        Path::owned("quote\"backslash\\.md".to_string())
    );
    assert_eq!(
        line_expected(&PathParser, "\"utf8-\\302\\265.md\""),
        Path::owned("utf8-\u{00b5}.md".to_string())
    );
}

fn header(left: &str, right: &str) -> DiffHeader {
    DiffHeader { left: Path::borrowed(left), right: Path::borrowed(right) }
}

#[test]
fn parse_diff_header() {
    assert_eq!(line_expected(&DiffHeaderParser, "diff --git a/.gitignore b/.gitignore"), header(".gitignore", ".gitignore"));
    assert_eq!(line_expected(&DiffHeaderParser, "diff --git a/GUIDE.md b/AGENTS.md"), header("GUIDE.md", "AGENTS.md"));
    assert_eq!(
        line_expected(&DiffHeaderParser, "diff --git a/ with spaces.md b/trailing spaces are ignored.md  "),
        header(" with spaces.md", "trailing spaces are ignored.md"),
    );
    assert_eq!(
        line_expected(&DiffHeaderParser, "diff --git \"a/path\\twith\\ncontrols\" \"b/path\\twith\\ncontrols\""),
        header("path\twith\ncontrols", "path\twith\ncontrols"),
    );
    assert_eq!(
        line_expected(&DiffHeaderParser, r#"diff --git "a/foo\\tbar" "b/foo\\tbar""#),
        header(r#"foo\tbar"#, r#"foo\tbar"#),
    );
    assert_eq!(line_expected(&DiffHeaderParser, r#"diff --git "a/foo\tbar" b/plain.md"#), header("foo\tbar", "plain.md"));
    assert_eq!(line_expected(&DiffHeaderParser, r#"diff --git a/plain.md "b/foo\tbar""#), header("plain.md", "foo\tbar"));
    assert_eq!(line_expected(&DiffHeaderParser, r#"diff --git a/foo b/bar "b/foo b/bar""#), header("foo b/bar", "foo b/bar"));
    assert_eq!(
        line_expected(&DiffHeaderParser, "diff --git \"a/quoted\\\\slash\\\"quote\" \"b/quoted\\\\slash\\\"quote\""),
        header("quoted\\slash\"quote", "quoted\\slash\"quote"),
    );
    assert_eq!(line_expected(&DiffHeaderParser, "diff --git a/License.md b/foo b/License.md"), header("License.md", "foo b/License.md"));
    assert_eq!(line_expected(&DiffHeaderParser, "diff --git a/foo b/bar b/foo b/bar"), header("foo", "bar b/foo b/bar"));
}

#[test]
fn parse_extended_header_line() {
    let p = ExtendedHeaderLineParser;
    assert_eq!(line_expected(&p, "old mode 100644"), ExtendedHeaderLine::OldMode(Mode::borrowed("100644")));
    assert_eq!(line_expected(&p, "new mode 100755"), ExtendedHeaderLine::NewMode(Mode::borrowed("100755")));
    assert_eq!(line_expected(&p, "deleted file mode 100644"), ExtendedHeaderLine::DeletedFileMode(Mode::borrowed("100644")));
    assert_eq!(line_expected(&p, "new file mode 100644"), ExtendedHeaderLine::NewFileMode(Mode::borrowed("100644")));
    assert_eq!(line_expected(&p, "copy from old path.md"), ExtendedHeaderLine::CopyFrom(Path::borrowed("old path.md")));
    assert_eq!(line_expected(&p, "copy to new path.md"), ExtendedHeaderLine::CopyTo(Path::borrowed("new path.md")));
    assert_eq!(line_expected(&p, "rename from old-name.rs"), ExtendedHeaderLine::RenameFrom(Path::borrowed("old-name.rs")));
    assert_eq!(line_expected(&p, "rename to new-name.rs"), ExtendedHeaderLine::RenameTo(Path::borrowed("new-name.rs")));
    assert_eq!(line_expected(&p, "similarity index 93%"), ExtendedHeaderLine::SimilarityIndex(Percentage(93)));
    assert_eq!(line_expected(&p, "dissimilarity index 7%"), ExtendedHeaderLine::DissimilarityIndex(Percentage(7)));
    assert_eq!(
        line_expected(&p, "index 7626a52..16399c7 100644"),
        ExtendedHeaderLine::Index(IndexLine { old: hash("7626a52"), new: hash("16399c7"), mode: Some(Mode::borrowed("100644")) }),
    );
    assert_eq!(
        line_expected(&p, "index 7626a52..16399c7"),
        ExtendedHeaderLine::Index(IndexLine { old: hash("7626a52"), new: hash("16399c7"), mode: None }),
    );
    assert_eq!(line_expected(&p, "old mode \t 100644"), ExtendedHeaderLine::OldMode(Mode::borrowed("100644")));
    assert_eq!(
        line_expected(&p, "rename from \"tab\\tnewline\\nand-utf8-\\302\\265.rs\""),
        ExtendedHeaderLine::RenameFrom(Path::owned("tab\tnewline\nand-utf8-\u{00b5}.rs".to_string())),
    );
}

fn check_file_header_lines() {
    assert_eq!(
        line_expected(&OldFileHeaderLineParser, "--- a/src/main.rs"),
        OldFileHeaderLine { path: Some(Path::borrowed("src/main.rs")) },
    );
    assert_eq!(
        line_expected(&NewFileHeaderLineParser, "+++ b/src/main.rs"),
        NewFileHeaderLine { path: Some(Path::borrowed("src/main.rs")) },
    );
    assert_eq!(line_expected(&OldFileHeaderLineParser, "--- /dev/null"), OldFileHeaderLine { path: None });
    assert_eq!(line_expected(&NewFileHeaderLineParser, "+++ /dev/null"), NewFileHeaderLine { path: None });
    assert_eq!(
        line_expected(&OldFileHeaderLineParser, r#"--- "a/foo\tbar""#),
        OldFileHeaderLine { path: Some(Path::owned("foo\tbar".to_string())) },
    );
    assert_eq!(
        line_expected(&NewFileHeaderLineParser, r#"+++ "b/foo\\tbar""#),
        NewFileHeaderLine { path: Some(Path::owned(r#"foo\tbar"#.to_string())) },
    );
    assert_eq!(
        line_expected(&FileHeaderLineParser, "+++ b/src/lib.rs"),
        FileHeaderLine::New(NewFileHeaderLine { path: Some(Path::borrowed("src/lib.rs")) }),
    );
    let merge_file_header_lines = ["--- a/left.rs", "--- a/right.rs", "+++ b/merged.rs"]
        .into_iter()
        .map(|line| FileHeaderLineParser.parse_line_required(line))
        .collect::<Result<Vec<_>, ParseError>>()
        .unwrap();
    assert_eq!(
        merge_file_header_lines,
        vec![
            FileHeaderLine::Old(OldFileHeaderLine { path: Some(Path::borrowed("left.rs")) }),
            FileHeaderLine::Old(OldFileHeaderLine { path: Some(Path::borrowed("right.rs")) }),
            FileHeaderLine::New(NewFileHeaderLine { path: Some(Path::borrowed("merged.rs")) }),
        ],
    );
}

#[test]
fn parse_file_header_line() {
    check_file_header_lines();
}

#[test]
fn file_header_line_parse_file_header_line() {
    check_file_header_lines();
}

#[test]
fn parse_single_parent_diff_lines_from_git_diff() {
    let parser = DiffLineParser { number_of_parents: 1 };
    assert_eq!(
        line_expected(&parser, " tmp*"),
        DiffLine::new(statuses(vec![DiffLineStatus::Unchanged]), "tmp*".to_string()),
    );
    assert_eq!(
        line_expected(&parser, "-/.cache/"),
        DiffLine::new(statuses(vec![DiffLineStatus::Removed]), "/.cache/".to_string()),
    );
    assert_eq!(
        line_expected(&parser, "+/.agents/"),
        DiffLine::new(statuses(vec![DiffLineStatus::Added]), "/.agents/".to_string()),
    );
    assert_eq!(
        line_expected(&parser, "+    applicable.sort_by_key(|(line_number, _)| std::cmp::Reverse(*line_number));"),
        DiffLine::new(
            statuses(vec![DiffLineStatus::Added]),
            "    applicable.sort_by_key(|(line_number, _)| std::cmp::Reverse(*line_number));".to_string()
        ),
    );
}

#[test]
fn parse_multi_parent_diff_lines() {
    let parser = DiffLineParser { number_of_parents: 2 };
    assert_eq!(
        line_expected(&parser, "  unchanged"),
        DiffLine::new(statuses(vec![DiffLineStatus::Unchanged, DiffLineStatus::Unchanged]), "unchanged".to_string()),
    );
    assert_eq!(
        line_expected(&parser, "- removed from first parent"),
        DiffLine::new(statuses(vec![DiffLineStatus::Removed, DiffLineStatus::Unchanged]), "removed from first parent".to_string()),
    );
    assert_eq!(
        line_expected(&parser, "++ added against both parents"),
        DiffLine::new(statuses(vec![DiffLineStatus::Added, DiffLineStatus::Added]), " added against both parents".to_string()),
    );
}

#[test]
fn test_parse_chunk_header() {
    assert_eq!(
        line_expected(&ChunkHeaderParser, "@@ -0,0 +1,29 @@  "),
        ChunkHeader { from_ranges: AtLeastOne::from_item(0..0), to_range: 1..30 },
    );
    assert_eq!(
        line_expected(&ChunkHeaderParser, "@@ -161,7 +161,7 @@ fn filter_applicable_comments<'a>("),
        ChunkHeader { from_ranges: AtLeastOne::from_item(161..168), to_range: 161..168 },
    );
    assert_eq!(
        line_expected(&ChunkHeaderParser, "@@ -1,13 +1,14 @@"),
        ChunkHeader { from_ranges: AtLeastOne::from_item(1..14), to_range: 1..15 },
    );
    assert_eq!(
        line_expected(&ChunkHeaderParser, "@@@ -1,2 -1,2 +1,2 @@@"),
        ChunkHeader { from_ranges: ranges(vec![1..3, 1..3]), to_range: 1..3 },
    );
}

#[test]
fn parse_diff_header_block() {
    let lines = [
        "diff --git a/src/lib.rs b/src/lib.rs",
        "old mode 100644",
        "new mode 100755",
        "index 7626a52..16399c7",
        "--- a/src/lib.rs",
        "+++ b/src/lib.rs",
        "@@ -1,3 +1,3 @@",
    ];
    let (header, rest) = DiffHeaderBlockParser.parse_lines_required(&lines).unwrap();
    assert_eq!(
        header,
        DiffHeaderBlock {
            diff: header_of("src/lib.rs", "src/lib.rs"),
            extended: vec![
                ExtendedHeaderLine::OldMode(Mode::borrowed("100644")),
                ExtendedHeaderLine::NewMode(Mode::borrowed("100755")),
                ExtendedHeaderLine::Index(IndexLine { old: hash("7626a52"), new: hash("16399c7"), mode: None }),
            ],
            old_files: vec![OldFileHeaderLine { path: Some(Path::borrowed("src/lib.rs")) }],
            new_file: NewFileHeaderLine { path: Some(Path::borrowed("src/lib.rs")) },
        },
    );
    assert_eq!(rest, &["@@ -1,3 +1,3 @@"]);

    let merge_lines = [
        "diff --git a/merged.rs b/merged.rs",
        "--- a/left.rs",
        "--- a/right.rs",
        "+++ b/merged.rs",
        "@@@ -1,2 -1,2 +1,2 @@@",
    ];
    let header = DiffHeaderBlockParser.parse_lines(&merge_lines).unwrap().unwrap().0;
    assert_eq!(
        header.old_files,
        vec![
            OldFileHeaderLine { path: Some(Path::borrowed("left.rs")) },
            OldFileHeaderLine { path: Some(Path::borrowed("right.rs")) },
        ],
    );
    assert_eq!(header.new_file, NewFileHeaderLine { path: Some(Path::borrowed("merged.rs")) });
}

fn header_of(left: &str, right: &str) -> DiffHeader {
    header(left, right)
}

#[test]
fn diff_file_header_into_static() {
    let header = DiffFileHeader {
        header: header("old.rs", "new.rs"),
        extended_header: vec![ExtendedHeaderLine::OldMode(Mode::borrowed("100644"))],
        old_files: vec![Some(Path::borrowed("old.rs"))],
        new_file: Some(Path::borrowed("new.rs")),
    };
    let static_header: DiffFileHeader = header.into_static();
    assert_eq!(
        static_header,
        DiffFileHeader {
            header: DiffHeader { left: Path::owned("old.rs".to_string()), right: Path::owned("new.rs".to_string()) },
            extended_header: vec![ExtendedHeaderLine::OldMode(Mode::owned("100644".to_string()))],
            old_files: vec![Some(Path::owned("old.rs".to_string()))],
            new_file: Some(Path::owned("new.rs".to_string())),
        }
    );
}

#[test]
fn diff_file_into_static() {
    let lines = [
        "diff --git a/src/lib.rs b/src/lib.rs",
        "index 7626a52..16399c7 100644",
        "--- a/src/lib.rs",
        "+++ b/src/lib.rs",
        "@@ -1,1 +1,1 @@",
        " line",
        "next file",
    ];
    let (file, rest) = DiffFileParser.parse_lines_required(&lines).unwrap();
    assert_eq!(rest, &["next file"]);
    let static_file = file.into_static();
    assert_eq!(static_file.chunks.len(), 1);
}

#[test]
fn parse_full_diff_with_multiple_files() {
    let lines = [
        "diff --git a/src/lib.rs b/src/lib.rs",
        "index 7626a52..16399c7 100644",
        "--- a/src/lib.rs",
        "+++ b/src/lib.rs",
        "@@ -1,1 +1,1 @@",
        " line",
        "diff --git a/README.md b/README.md",
        "index 1111111..2222222 100644",
        "--- a/README.md",
        "+++ b/README.md",
        "@@ -1,1 +1,1 @@",
        "-old",
        "+new",
        "@@ -10,1 +10,2 @@",
        " context",
        "+added",
        "",
    ];
    let diff = parse(&lines).unwrap();
    assert_eq!(diff.files.len(), 2);
    assert_eq!(diff.files[0].chunks.len(), 1);
    assert_eq!(diff.files[1].chunks.len(), 2);
    let static_diff = diff.into_static();
    assert_eq!(static_diff.files.len(), 2);
}

#[test]
fn parse_full_diff_rejects_trailing_content() {
    let lines = [
        "diff --git a/src/lib.rs b/src/lib.rs",
        "index 7626a52..16399c7 100644",
        "--- a/src/lib.rs",
        "+++ b/src/lib.rs",
        "@@ -1,1 +1,1 @@",
        " line",
        "not part of the diff",
    ];
    let error = parse(&lines).unwrap_err();
    assert!(error.message().contains("trailing content in diff"), "{error:?}");
}
