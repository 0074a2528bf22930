//! A line-by-line reader of `git diff` output that lays each hunk out in
//! rows of old and new lines, pairing removed lines with the added lines
//! that replace them.
use vstd::prelude::*;

use crate::diff::parser::views_of;
use crate::formatting::{concat_map, lemma_concat_map_step};
use crate::side_by_side_diff::FileStatus;
use crate::text::{
    chars_of, decimal_value, digits_value, has_str_prefix_at, is_ascii_digit, is_whitespace, is_ws,
    lines_of, push_str, span, span_len, split_lines, starts_with, str_eq, string_from, string_of,
    string_views, trim_start, CharClass,
};

verus! {


/// The type of change of a diff line.
#[derive(Debug, Clone, Copy, PartialEq, Eq, Structural)]
pub enum LineType {
    Context,
    Addition,
    Deletion,
}

/// A line of one side of a hunk: its number on that side, its text and type.
#[derive(Debug, PartialEq)]
pub struct LineInfo {
    pub number: u32,
    pub content: String,
    pub line_type: LineType,
    pub highlighted_html: Option<String>,
}

/// The number, text and type of a line of one side.
pub struct LineInfoView {
    pub number: u32,
    pub content: Seq<char>,
    pub line_type: LineType,
    pub highlighted_html: Option<Seq<char>>,
}

impl DeepView for LineInfo {
    type V = LineInfoView;

    open spec fn deep_view(&self) -> LineInfoView {
        LineInfoView {
            number: self.number,
            content: self.content@,
            line_type: self.line_type,
            highlighted_html: match self.highlighted_html {
                Some(h) => Some(h@),
                None => None,
            },
        }
    }
}

/// A row of the side-by-side view: the old line and the new line, either
/// of which may be missing.
#[derive(Debug, PartialEq)]
pub struct DiffRow {
    pub old_line: Option<LineInfo>,
    pub new_line: Option<LineInfo>,
}

/// The two sides of a row.
pub struct DiffRowView {
    pub old_line: Option<LineInfoView>,
    pub new_line: Option<LineInfoView>,
}

/// The view of an optional line.
pub open spec fn opt_line_view(l: Option<LineInfo>) -> Option<LineInfoView> {
    match l {
        Some(x) => Some(x.deep_view()),
        None => None,
    }
}

impl DeepView for DiffRow {
    type V = DiffRowView;

    open spec fn deep_view(&self) -> DiffRowView {
        DiffRowView { old_line: opt_line_view(self.old_line), new_line: opt_line_view(self.new_line) }
    }
}

/// A hunk: the ranges of its header, the header line and its rows.
#[derive(Debug, PartialEq)]
pub struct DiffHunk {
    pub old_start: u32,
    pub old_count: u32,
    pub new_start: u32,
    pub new_count: u32,
    pub header: String,
    pub rows: Vec<DiffRow>,
}

/// The ranges, header and rows of a hunk.
pub struct DiffHunkView {
    pub old_start: u32,
    pub old_count: u32,
    pub new_start: u32,
    pub new_count: u32,
    pub header: Seq<char>,
    pub rows: Seq<DiffRowView>,
}

impl DeepView for DiffHunk {
    type V = DiffHunkView;

    open spec fn deep_view(&self) -> DiffHunkView {
        DiffHunkView {
            old_start: self.old_start,
            old_count: self.old_count,
            new_start: self.new_start,
            new_count: self.new_count,
            header: self.header@,
            rows: views_of(self.rows@),
        }
    }
}

/// The diff of one file: its path, its old path when it was renamed, its
/// status and its hunks.
#[derive(Debug, PartialEq)]
pub struct FileDiff {
    pub path: String,
    pub old_path: Option<String>,
    pub status: FileStatus,
    pub hunks: Vec<DiffHunk>,
}

/// The paths, status and hunks of a file diff.
pub struct FileDiffView {
    pub path: Seq<char>,
    pub old_path: Option<Seq<char>>,
    pub status: FileStatus,
    pub hunks: Seq<DiffHunkView>,
}

impl DeepView for FileDiff {
    type V = FileDiffView;

    open spec fn deep_view(&self) -> FileDiffView {
        FileDiffView {
            path: self.path@,
            old_path: match self.old_path {
                Some(p) => Some(p@),
                None => None,
            },
            status: self.status,
            hunks: views_of(self.hunks@),
        }
    }
}

/// The files of a diff laid out side by side.
#[derive(Debug, PartialEq)]
pub struct SideBySideDiff {
    pub files: Vec<FileDiff>,
}

impl DeepView for SideBySideDiff {
    type V = Seq<FileDiffView>;

    open spec fn deep_view(&self) -> Seq<FileDiffView> {
        views_of(self.files@)
    }
}

fn clone_opt_string(s: &Option<String>) -> (r: Option<String>)
    ensures
        match *s {
            Some(x) => r matches Some(y) && y@ == x@,
            None => r is None,
        },
{
    match s {
        Some(x) => Some(x.clone()),
        None => None,
    }
}

impl Clone for LineInfo {
    fn clone(&self) -> (r: Self)
        ensures
            r.deep_view() == self.deep_view(),
    {
        LineInfo {
            number: self.number,
            content: self.content.clone(),
            line_type: self.line_type,
            highlighted_html: clone_opt_string(&self.highlighted_html),
        }
    }
}

fn clone_opt_line(l: &Option<LineInfo>) -> (r: Option<LineInfo>)
    ensures
        opt_line_view(r) == opt_line_view(*l),
{
    match l {
        Some(x) => Some(x.clone()),
        None => None,
    }
}

impl Clone for DiffRow {
    fn clone(&self) -> (r: Self)
        ensures
            r.deep_view() == self.deep_view(),
    {
        DiffRow { old_line: clone_opt_line(&self.old_line), new_line: clone_opt_line(&self.new_line) }
    }
}

impl Clone for DiffHunk {
    fn clone(&self) -> (r: Self)
        ensures
            r.deep_view() == self.deep_view(),
    {
        let mut rows: Vec<DiffRow> = Vec::new();
        let n = self.rows.len();
        let mut i: usize = 0;
        while i < n
            invariant
                n == self.rows.len(),
                i <= n,
                rows@.len() == i,
                forall|j: int| 0 <= j < i ==> #[trigger] rows@[j].deep_view() == self.rows@[j].deep_view(),
            decreases n - i,
        {
            rows.push(self.rows[i].clone());
            i += 1;
        }
        assert(views_of(rows@) =~= views_of(self.rows@));
        DiffHunk {
            old_start: self.old_start,
            old_count: self.old_count,
            new_start: self.new_start,
            new_count: self.new_count,
            header: self.header.clone(),
            rows,
        }
    }
}

impl Clone for FileDiff {
    fn clone(&self) -> (r: Self)
        ensures
            r.deep_view() == self.deep_view(),
    {
        let mut hunks: Vec<DiffHunk> = Vec::new();
        let n = self.hunks.len();
        let mut i: usize = 0;
        while i < n
            invariant
                n == self.hunks.len(),
                i <= n,
                hunks@.len() == i,
                forall|j: int| 0 <= j < i ==> #[trigger] hunks@[j].deep_view() == self.hunks@[j].deep_view(),
            decreases n - i,
        {
            hunks.push(self.hunks[i].clone());
            i += 1;
        }
        assert(views_of(hunks@) =~= views_of(self.hunks@));
        FileDiff {
            path: self.path.clone(),
            old_path: clone_opt_string(&self.old_path),
            status: self.status,
            hunks,
        }
    }
}

/// A copy of the file diffs, in their order.
pub fn clone_files(files: &Vec<FileDiff>) -> (r: Vec<FileDiff>)
    ensures
        views_of(r@) == views_of(files@),
{
    let mut out: Vec<FileDiff> = Vec::new();
    let n = files.len();
    let mut i: usize = 0;
    while i < n
        invariant
            n == files.len(),
            i <= n,
            out@.len() == i,
            forall|j: int| 0 <= j < i ==> #[trigger] out@[j].deep_view() == files@[j].deep_view(),
        decreases n - i,
    {
        out.push(files[i].clone());
        i += 1;
    }
    assert(views_of(out@) =~= views_of(files@));
    out
}

impl Clone for SideBySideDiff {
    fn clone(&self) -> (r: Self)
        ensures
            r.deep_view() == self.deep_view(),
    {
        SideBySideDiff { files: clone_files(&self.files) }
    }
}

// ---------------------------------------------------------------------------
// Hunk headers
// ---------------------------------------------------------------------------

/// The line numbers and counts of a hunk header.
#[derive(Debug, Clone, Copy, PartialEq, Eq, Structural)]
pub struct HunkInfo {
    pub old_start: u32,
    pub old_count: u32,
    pub new_start: u32,
    pub new_count: u32,
}

/// The value of `s` as `str::parse::<u32>` reads it: decimal digits after
/// an optional `+`, at most `u32::MAX`.
pub open spec fn parse_u32(s: Seq<char>) -> Option<u32> {
    let d = if s.len() > 0 && s[0] == '+' {
        s.skip(1)
    } else {
        s
    };
    if d.len() > 0 && span_len(d, CharClass::AsciiDigit) == d.len() && digits_value(d) <= u32::MAX {
        Some(digits_value(d) as u32)
    } else {
        None
    }
}

/// A range `start,count` or `start` (count 1); what does not read as a
/// number counts as 1.
#[verifier::opaque]
pub open spec fn parse_range_spec(range: Seq<char>) -> (u32, u32) {
    let or_one = |x: Option<u32>| match x {
        Some(v) => v,
        None => 1u32,
    };
    match crate::text::find(range, seq![',']) {
        Some(i) => (or_one(parse_u32(range.take(i))), or_one(parse_u32(range.skip(i + 1)))),
        None => (or_one(parse_u32(range)), 1),
    }
}

/// The length of the first word of `t`, up to its first whitespace.
pub open spec fn word_len(t: Seq<char>) -> nat
    decreases t.len(),
{
    if t.len() == 0 || is_ws(t[0]) {
        0
    } else {
        1 + word_len(t.drop_first())
    }
}

/// The words of `s`, separated by whitespace, as `str::split_whitespace` yields them.
pub open spec fn words(s: Seq<char>) -> Seq<Seq<char>>
    decreases s.len(),
{
    let t = trim_start(s);
    if t.len() == 0 {
        seq![]
    } else {
        proof {
            lemma_word_len(t);
            crate::text::lemma_span_len(s, CharClass::Whitespace);
        }
        seq![t.take(word_len(t) as int)] + words(t.skip(word_len(t) as int))
    }
}

pub proof fn lemma_word_len(t: Seq<char>)
    ensures
        word_len(t) <= t.len(),
        forall|j: int| 0 <= j < word_len(t) ==> !is_ws(#[trigger] t[j]),
        word_len(t) < t.len() ==> is_ws(t[word_len(t) as int]),
        t.len() > 0 && !is_ws(t[0]) ==> word_len(t) > 0,
    decreases t.len(),
{
    if t.len() > 0 && !is_ws(t[0]) {
        lemma_word_len(t.drop_first());
        assert forall|j: int| 0 <= j < word_len(t) implies !is_ws(#[trigger] t[j]) by {
            if j > 0 {
                assert(t[j] == t.drop_first()[j - 1]);
            }
        }
    }
}

/// The new range of a hunk header, in `t`, the text after the old range:
/// whitespace, `+` and the range up to the next whitespace.
#[verifier::opaque]
pub open spec fn new_range_spec(t: Seq<char>) -> Option<(u32, u32)> {
    let r2 = trim_start(t);
    if !(r2.len() > 0 && r2[0] == '+') {
        None
    } else {
        let ws = words(r2.skip(1));
        if ws.len() == 0 {
            None
        } else {
            Some(parse_range_spec(ws[0]))
        }
    }
}

/// The ranges of a hunk header `@@ -<old> +<new> @@`.
pub open spec fn hunk_header_spec(h: Seq<char>) -> Option<HunkInfo> {
    if !starts_with(h, "@@"@) {
        None
    } else {
        let rest = trim_start(h.skip(2));
        if !(rest.len() > 0 && rest[0] == '-') {
            None
        } else {
            let r1 = rest.skip(1);
            match crate::text::find(r1, seq![' ']) {
                None => None,
                Some(i) => match new_range_spec(r1.skip(i + 1)) {
                    None => None,
                    Some((new_start, new_count)) => {
                        let (old_start, old_count) = parse_range_spec(r1.take(i));
                        Some(HunkInfo { old_start, old_count, new_start, new_count })
                    },
                },
            }
        }
    }
}

/// The value of `cs[from..to]` as `str::parse::<u32>` reads it.
fn parse_u32_at(cs: &Vec<char>, from: usize, to: usize) -> (r: Option<u32>)
    requires
        from <= to <= cs@.len(),
    ensures
        r == parse_u32(cs@.subrange(from as int, to as int)),
{
    let ghost s = cs@.subrange(from as int, to as int);
    let start = if from < to && cs[from] == '+' {
        from + 1
    } else {
        from
    };
    let ghost d = cs@.subrange(start as int, to as int);
    assert(d =~= if s.len() > 0 && s[0] == '+' { s.skip(1) } else { s });
    if start == to {
        return None;
    }
    let sub = crate::text::sub_chars(cs, start, to);
    assert(sub@ == d);
    let end = span(&sub, 0, CharClass::AsciiDigit);
    assert(sub@.skip(0) =~= sub@);
    if end != sub.len() {
        return None;
    }
    proof {
        crate::text::lemma_span_len(d, CharClass::AsciiDigit);
        assert(sub@.subrange(0, sub@.len() as int) =~= d);
    }
    match decimal_value(&sub, 0, sub.len()) {
        None => None,
        Some(v) => if v <= 0xffff_ffffusize {
            Some(v as u32)
        } else {
            None
        },
    }
}

/// Reads `start,count` or `start` in `cs[from..to]`, see [`parse_range_spec`].
fn parse_range(cs: &Vec<char>, from: usize, to: usize) -> (r: (u32, u32))
    requires
        from <= to <= cs@.len(),
    ensures
        r == parse_range_spec(cs@.subrange(from as int, to as int)),
{
    reveal(parse_range_spec);
    let range = crate::text::sub_chars(cs, from, to);
    let comma = vec![','];
    assert(comma@ == seq![',']);
    assert(range@.skip(0) =~= range@);
    proof {
        crate::text::lemma_find_from(range@, seq![','], 0);
    }
    match crate::text::find_at(&range, 0, &comma) {
        Some(i) => {
            let a = parse_u32_at(&range, 0, i);
            let b = parse_u32_at(&range, i + 1, range.len());
            assert(range@.subrange(0, i as int) =~= range@.take(i as int));
            assert(range@.subrange(i + 1, range@.len() as int) =~= range@.skip(i + 1));
            (match a { Some(v) => v, None => 1 }, match b { Some(v) => v, None => 1 })
        },
        None => {
            let a = parse_u32_at(&range, 0, range.len());
            assert(range@.subrange(0, range@.len() as int) =~= range@);
            (match a { Some(v) => v, None => 1 }, 1)
        },
    }
}

/// The end of the word that starts at `from`.
fn word_end(cs: &Vec<char>, from: usize) -> (r: usize)
    requires
        from <= cs@.len(),
    ensures
        from <= r <= cs@.len(),
        r - from == word_len(cs@.skip(from as int)),
{
    let mut i = from;
    while i < cs.len() && !is_whitespace(cs[i])
        invariant
            from <= i <= cs@.len(),
            word_len(cs@.skip(from as int)) == (i - from) + word_len(cs@.skip(i as int)),
        decreases cs@.len() - i,
    {
        assert(cs@.skip(i as int)[0] == cs@[i as int]);
        assert(cs@.skip(i as int).drop_first() =~= cs@.skip(i + 1));
        i += 1;
    }
    if i < cs.len() {
        assert(cs@.skip(i as int)[0] == cs@[i as int]);
    }
    i
}

/// Reads the new range of a hunk header in `cs[from..]`, see [`new_range_spec`].
fn parse_new_range(cs: &Vec<char>, from: usize) -> (r: Option<(u32, u32)>)
    requires
        from <= cs@.len(),
    ensures
        r == new_range_spec(cs@.skip(from as int)),
{
    reveal(new_range_spec);
    let len = cs.len();
    let b = span(cs, from, CharClass::Whitespace);
    let ghost r2 = trim_start(cs@.skip(from as int));
    assert(cs@.skip(b as int) =~= r2);
    if b == len || cs[b] != '+' {
        return None;
    }
    assert(r2[0] == cs@[b as int]);
    let c = span(cs, b + 1, CharClass::Whitespace);
    let ghost t = trim_start(r2.skip(1));
    assert(cs@.skip(b + 1) =~= r2.skip(1));
    assert(cs@.skip(c as int) =~= t);
    proof {
        crate::text::lemma_span_len(r2.skip(1), CharClass::Whitespace);
        lemma_word_len(t);
    }
    if c == len {
        assert(words(r2.skip(1)) =~= seq![]);
        return None;
    }
    let e = word_end(cs, c);
    assert(cs@.subrange(c as int, e as int) =~= t.take(word_len(t) as int));
    assert(words(r2.skip(1))[0] == t.take(word_len(t) as int));
    Some(parse_range(cs, c, e))
}

/// Reads a hunk header line, see [`hunk_header_spec`].
pub fn parse_hunk_header(header: &str) -> (r: Option<HunkInfo>)
    ensures
        r == hunk_header_spec(header@),
{
    let cs = chars_of(header);
    let len = cs.len();
    if !has_str_prefix_at(&cs, 0, "@@") {
        assert(cs@.skip(0) =~= cs@);
        return None;
    }
    proof {
        reveal_strlit("@@");
    }
    assert(cs@.skip(0) =~= cs@);
    let a = span(&cs, 2, CharClass::Whitespace);
    let ghost rest = trim_start(cs@.skip(2));
    assert(cs@.skip(a as int) =~= rest);
    if a == len || cs[a] != '-' {
        return None;
    }
    assert(rest[0] == cs@[a as int]);
    let r1 = crate::text::sub_chars(&cs, a + 1, len);
    assert(r1@ =~= rest.skip(1));
    let space = vec![' '];
    assert(space@ == seq![' ']);
    assert(r1@.skip(0) =~= r1@);
    proof {
        crate::text::lemma_find_from(r1@, seq![' '], 0);
    }
    let i = match crate::text::find_at(&r1, 0, &space) {
        None => return None,
        Some(i) => i,
    };
    let (new_start, new_count) = match parse_new_range(&r1, i + 1) {
        None => return None,
        Some(x) => x,
    };
    let (old_start, old_count) = parse_range(&r1, 0, i);
    assert(r1@.subrange(0, i as int) =~= r1@.take(i as int));
    Some(HunkInfo { old_start, old_count, new_start, new_count })
}

// ---------------------------------------------------------------------------
// Building a hunk
// ---------------------------------------------------------------------------

/// A line of one side, without highlighting.
pub open spec fn line_info(number: u32, content: Seq<char>, t: LineType) -> LineInfoView {
    LineInfoView { number, content, line_type: t, highlighted_html: None }
}

/// The next line number; numbers wrap around past the largest one.
pub open spec fn next_line(n: u32) -> u32 {
    if n == u32::MAX {
        0
    } else {
        (n + 1) as u32
    }
}

/// Rows holding only the old lines `ds`.
pub open spec fn deletion_rows(ds: Seq<LineInfoView>) -> Seq<DiffRowView> {
    ds.map_values(|d: LineInfoView| DiffRowView { old_line: Some(d), new_line: None })
}

/// Builds the rows of a hunk, line by line.
pub struct HunkBuilder {
    info: HunkInfo,
    header: String,
    rows: Vec<DiffRow>,
    old_line: u32,
    new_line: u32,
    pending_deletions: Vec<LineInfo>,
}

/// The state of a hunk being built: the rows so far, the next old and new
/// line numbers, and the removed lines waiting for added lines to pair with.
pub struct HunkBuilderView {
    pub info: HunkInfo,
    pub header: Seq<char>,
    pub rows: Seq<DiffRowView>,
    pub old_line: u32,
    pub new_line: u32,
    pub pending: Seq<LineInfoView>,
}

impl View for HunkBuilder {
    type V = HunkBuilderView;

    closed spec fn view(&self) -> HunkBuilderView {
        HunkBuilderView {
            info: self.info,
            header: self.header@,
            rows: views_of(self.rows@),
            old_line: self.old_line,
            new_line: self.new_line,
            pending: views_of(self.pending_deletions@),
        }
    }
}

/// A new hunk: no rows, line numbers at the starts of the ranges.
pub open spec fn new_builder(info: HunkInfo, header: Seq<char>) -> HunkBuilderView {
    HunkBuilderView { info, header, rows: seq![], old_line: info.old_start, new_line: info.new_start, pending: seq![] }
}

/// The waiting removed lines written out as rows of their own.
pub open spec fn flush_spec(b: HunkBuilderView) -> HunkBuilderView {
    HunkBuilderView {
        info: b.info,
        header: b.header,
        rows: b.rows + deletion_rows(b.pending),
        old_line: b.old_line,
        new_line: b.new_line,
        pending: seq![],
    }
}

/// A line added to a hunk. A context line is written in a row of its own
/// (after the waiting removed lines); a removed line waits; an added line
/// is written beside the last waiting removed line, or alone.
pub open spec fn add_line_spec(
    b: HunkBuilderView,
    old_content: Option<Seq<char>>,
    new_content: Option<Seq<char>>,
    t: LineType,
) -> HunkBuilderView {
    match t {
        LineType::Context => {
            let f = flush_spec(b);
            HunkBuilderView {
                info: f.info,
                header: f.header,
                rows: f.rows.push(DiffRowView {
                    old_line: match old_content {
                        Some(c) => Some(line_info(f.old_line, c, LineType::Context)),
                        None => None,
                    },
                    new_line: match new_content {
                        Some(c) => Some(line_info(f.new_line, c, LineType::Context)),
                        None => None,
                    },
                }),
                old_line: if old_content is Some { next_line(f.old_line) } else { f.old_line },
                new_line: if new_content is Some { next_line(f.new_line) } else { f.new_line },
                pending: seq![],
            }
        },
        LineType::Deletion => match old_content {
            Some(c) => HunkBuilderView {
                info: b.info,
                header: b.header,
                rows: b.rows,
                old_line: next_line(b.old_line),
                new_line: b.new_line,
                pending: b.pending.push(line_info(b.old_line, c, LineType::Deletion)),
            },
            None => b,
        },
        LineType::Addition => {
            let new_info = match new_content {
                Some(c) => Some(line_info(b.new_line, c, LineType::Addition)),
                None => None,
            };
            HunkBuilderView {
                info: b.info,
                header: b.header,
                rows: b.rows.push(DiffRowView {
                    old_line: if b.pending.len() > 0 { Some(b.pending.last()) } else { None },
                    new_line: new_info,
                }),
                old_line: b.old_line,
                new_line: if new_content is Some { next_line(b.new_line) } else { b.new_line },
                pending: if b.pending.len() > 0 { b.pending.drop_last() } else { b.pending },
            }
        },
    }
}

/// The finished hunk: the waiting removed lines written out.
pub open spec fn build_spec(b: HunkBuilderView) -> DiffHunkView {
    DiffHunkView {
        old_start: b.info.old_start,
        old_count: b.info.old_count,
        new_start: b.info.new_start,
        new_count: b.info.new_count,
        header: b.header,
        rows: flush_spec(b).rows,
    }
}

/// The hunk after the lines `ops` (each its old text, new text and kind)
/// were added in order, see [`add_line_spec`].
pub open spec fn add_lines_spec(b: HunkBuilderView, ops: Seq<(Option<Seq<char>>, Option<Seq<char>>, LineType)>) -> HunkBuilderView
    decreases ops.len(),
{
    if ops.len() == 0 {
        b
    } else {
        let o = ops.last();
        add_line_spec(add_lines_spec(b, ops.drop_last()), o.0, o.1, o.2)
    }
}

/// Whether a line added to a hunk is a line of the old file: a context or
/// removed line with its old text.
pub open spec fn has_old_side(o: (Option<Seq<char>>, Option<Seq<char>>, LineType)) -> bool {
    o.0 is Some && (o.2 == LineType::Context || o.2 == LineType::Deletion)
}

/// The number of lines of the old file among `ops`.
pub open spec fn old_side_count(ops: Seq<(Option<Seq<char>>, Option<Seq<char>>, LineType)>) -> nat
    decreases ops.len(),
{
    if ops.len() == 0 {
        0
    } else {
        old_side_count(ops.drop_last()) + if has_old_side(ops.last()) {
            1nat
        } else {
            0nat
        }
    }
}

proof fn lemma_old_side_count_prefix(ops: Seq<(Option<Seq<char>>, Option<Seq<char>>, LineType)>, i: int)
    requires
        0 <= i <= ops.len(),
    ensures
        old_side_count(ops.take(i)) <= old_side_count(ops),
    decreases ops.len(),
{
    if i < ops.len() {
        let t = ops.drop_last();
        assert(t.take(i) =~= ops.take(i));
        lemma_old_side_count_prefix(t, i);
    } else {
        assert(ops.take(i) =~= ops);
    }
}

proof fn lemma_old_line_counter(info: HunkInfo, header: Seq<char>, ops: Seq<(Option<Seq<char>>, Option<Seq<char>>, LineType)>)
    requires
        info.old_start + old_side_count(ops) <= u32::MAX,
    ensures
        add_lines_spec(new_builder(info, header), ops).old_line == info.old_start + old_side_count(ops),
    decreases ops.len(),
{
    if ops.len() > 0 {
        let t = ops.drop_last();
        lemma_old_side_count_prefix(ops, ops.len() - 1);
        assert(ops.take(ops.len() - 1) =~= t);
        lemma_old_line_counter(info, header, t);
    }
}

/// The lines of the old file in a hunk are numbered in the order they are
/// added, from the start of the old range: the `i`-th line added that is a
/// context or removed line with old text gets the old range's start plus
/// the number of such lines added before it, and after all lines the next
/// old line number is the start plus their count.
pub proof fn law_old_lines_numbered_in_order(
    info: HunkInfo,
    header: Seq<char>,
    ops: Seq<(Option<Seq<char>>, Option<Seq<char>>, LineType)>,
    i: int,
)
    requires
        info.old_start + old_side_count(ops) <= u32::MAX,
        0 <= i < ops.len(),
    ensures
        add_lines_spec(new_builder(info, header), ops).old_line == info.old_start + old_side_count(ops),
        ({
            let after = add_lines_spec(new_builder(info, header), ops.take(i + 1));
            let number = info.old_start + old_side_count(ops.take(i));
            &&& (has_old_side(ops[i]) && ops[i].2 == LineType::Deletion) ==> after.pending.last().number == number
                && after.pending.last().content == ops[i].0->Some_0
            &&& (has_old_side(ops[i]) && ops[i].2 == LineType::Context) ==> (after.rows.last().old_line matches Some(l)
                && l.number == number && l.content == ops[i].0->Some_0)
        }),
{
    lemma_old_line_counter(info, header, ops);
    lemma_old_side_count_prefix(ops, i);
    lemma_old_side_count_prefix(ops, i + 1);
    lemma_old_line_counter(info, header, ops.take(i));
    let t = ops.take(i + 1);
    assert(t.drop_last() =~= ops.take(i));
    assert(t.last() == ops[i]);
}

/// Whether a line added to a hunk is a line of the new file: a context or
/// added line with its new text.
pub open spec fn has_new_side(o: (Option<Seq<char>>, Option<Seq<char>>, LineType)) -> bool {
    o.1 is Some && (o.2 == LineType::Context || o.2 == LineType::Addition)
}

/// The number of lines of the new file among `ops`.
pub open spec fn new_side_count(ops: Seq<(Option<Seq<char>>, Option<Seq<char>>, LineType)>) -> nat
    decreases ops.len(),
{
    if ops.len() == 0 {
        0
    } else {
        new_side_count(ops.drop_last()) + if has_new_side(ops.last()) {
            1nat
        } else {
            0nat
        }
    }
}

proof fn lemma_new_side_count_prefix(ops: Seq<(Option<Seq<char>>, Option<Seq<char>>, LineType)>, i: int)
    requires
        0 <= i <= ops.len(),
    ensures
        new_side_count(ops.take(i)) <= new_side_count(ops),
    decreases ops.len(),
{
    if i < ops.len() {
        let t = ops.drop_last();
        assert(t.take(i) =~= ops.take(i));
        lemma_new_side_count_prefix(t, i);
    } else {
        assert(ops.take(i) =~= ops);
    }
}

proof fn lemma_new_line_counter(info: HunkInfo, header: Seq<char>, ops: Seq<(Option<Seq<char>>, Option<Seq<char>>, LineType)>)
    requires
        info.new_start + new_side_count(ops) <= u32::MAX,
    ensures
        add_lines_spec(new_builder(info, header), ops).new_line == info.new_start + new_side_count(ops),
    decreases ops.len(),
{
    if ops.len() > 0 {
        let t = ops.drop_last();
        lemma_new_side_count_prefix(ops, ops.len() - 1);
        assert(ops.take(ops.len() - 1) =~= t);
        lemma_new_line_counter(info, header, t);
    }
}

/// The lines of the new file in a hunk are numbered in the order they are
/// added, from the start of the new range: the `i`-th line added that is a
/// context or added line with new text is written in a row with the new
/// range's start plus the number of such lines added before it.
pub proof fn law_new_lines_numbered_in_order(
    info: HunkInfo,
    header: Seq<char>,
    ops: Seq<(Option<Seq<char>>, Option<Seq<char>>, LineType)>,
    i: int,
)
    requires
        info.new_start + new_side_count(ops) <= u32::MAX,
        0 <= i < ops.len(),
    ensures
        add_lines_spec(new_builder(info, header), ops).new_line == info.new_start + new_side_count(ops),
        has_new_side(ops[i]) ==> (add_lines_spec(new_builder(info, header), ops.take(i + 1)).rows.last().new_line matches Some(
            l,
        ) && l.number == info.new_start + new_side_count(ops.take(i)) && l.content == ops[i].1->Some_0),
{
    lemma_new_line_counter(info, header, ops);
    lemma_new_side_count_prefix(ops, i);
    lemma_new_side_count_prefix(ops, i + 1);
    lemma_new_line_counter(info, header, ops.take(i));
    let t = ops.take(i + 1);
    assert(t.drop_last() =~= ops.take(i));
    assert(t.last() == ops[i]);
}

/// A copy of an optional text.
fn own(c: Option<&str>) -> (r: Option<String>)
    ensures
        match c {
            Some(x) => r matches Some(y) && y@ == x@,
            None => r is None,
        },
{
    match c {
        Some(x) => Some(x.to_owned()),
        None => None,
    }
}

impl HunkBuilder {
    /// A builder for the hunk with the given ranges and header line.
    pub fn new(info: HunkInfo, header: String) -> (r: Self)
        ensures
            r@ == new_builder(info, header@),
    {
        let old_line = info.old_start;
        let new_line = info.new_start;
        let r = HunkBuilder { info, header, rows: Vec::new(), old_line, new_line, pending_deletions: Vec::new() };
        assert(views_of(r.rows@) =~= seq![]);
        assert(views_of(r.pending_deletions@) =~= seq![]);
        r
    }

    /// Writes the waiting removed lines as rows of their own.
    pub fn flush_pending_deletions(&mut self)
        ensures
            final(self)@ == flush_spec(old(self)@),
    {
        let ghost rows0 = views_of(self.rows@);
        let ghost pend = views_of(self.pending_deletions@);
        let mut pending = Vec::new();
        std::mem::swap(&mut pending, &mut self.pending_deletions);
        let mut i: usize = 0;
        let n = pending.len();
        let mut rest = pending;
        while rest.len() > 0
            invariant
                i <= n,
                n == pend.len(),
                views_of(rest@) == pend.skip(i as int),
                views_of(self.rows@) == rows0 + deletion_rows(pend.take(i as int)),
                views_of(self.pending_deletions@) == Seq::<LineInfoView>::empty(),
                self.info == old(self).info,
                self.header == old(self).header,
                self.old_line == old(self).old_line,
                self.new_line == old(self).new_line,
            decreases rest@.len(),
        {
            let ghost before = rest@;
            let d = rest.remove(0);
            assert(before =~= seq![d] + rest@);
            assert(views_of(before) =~= seq![d.deep_view()] + views_of(rest@));
            assert(pend[i as int] == d.deep_view()) by {
                assert(pend.skip(i as int)[0] == pend[i as int]);
            }
            let ghost rows_before = views_of(self.rows@);
            self.rows.push(DiffRow { old_line: Some(d), new_line: None });
            proof {
                assert(views_of(self.rows@) =~= rows_before.push(DiffRowView { old_line: Some(d.deep_view()), new_line: None }));
                assert(deletion_rows(pend.take(i + 1)) =~= deletion_rows(pend.take(i as int)).push(DiffRowView { old_line: Some(pend[i as int]), new_line: None }));
                assert(views_of(rest@) =~= views_of(before).drop_first());
                assert(pend.skip(i as int).drop_first() =~= pend.skip(i + 1));
                assert(views_of(rest@) =~= pend.skip(i + 1));
            }
            i += 1;
        }
        assert(pend.take(i as int) =~= pend);
        assert(views_of(self.pending_deletions@) =~= seq![]);
    }

    /// Adds a line to the hunk, see [`add_line_spec`].
    pub fn add_line(&mut self, old_content: Option<&str>, new_content: Option<&str>, line_type: LineType)
        ensures
            final(self)@ == add_line_spec(
                old(self)@,
                match old_content { Some(c) => Some(c@), None => None },
                match new_content { Some(c) => Some(c@), None => None },
                line_type,
            ),
    {
        match line_type {
            LineType::Context => {
                self.flush_pending_deletions();
                let ghost f = self@;
                let old_info = match own(old_content) {
                    Some(c) => Some(LineInfo { number: self.old_line, content: c, line_type: LineType::Context, highlighted_html: None }),
                    None => None,
                };
                let new_info = match own(new_content) {
                    Some(c) => Some(LineInfo { number: self.new_line, content: c, line_type: LineType::Context, highlighted_html: None }),
                    None => None,
                };
                let row = DiffRow { old_line: old_info, new_line: new_info };
                let ghost rows_before = views_of(self.rows@);
                self.rows.push(row);
                assert(views_of(self.rows@) =~= rows_before.push(row.deep_view()));
                if old_content.is_some() {
                    self.old_line = if self.old_line == u32::MAX { 0 } else { self.old_line + 1 };
                }
                if new_content.is_some() {
                    self.new_line = if self.new_line == u32::MAX { 0 } else { self.new_line + 1 };
                }
            },
            LineType::Deletion => {
                match old_content {
                    Some(content) => {
                        let ghost before = views_of(self.pending_deletions@);
                        let d = LineInfo { number: self.old_line, content: content.to_owned(), line_type: LineType::Deletion, highlighted_html: None };
                        self.pending_deletions.push(d);
                        assert(views_of(self.pending_deletions@) =~= before.push(d.deep_view()));
                        self.old_line = if self.old_line == u32::MAX { 0 } else { self.old_line + 1 };
                    },
                    None => {},
                }
            },
            LineType::Addition => {
                let new_info = match own(new_content) {
                    Some(c) => Some(LineInfo { number: self.new_line, content: c, line_type: LineType::Addition, highlighted_html: None }),
                    None => None,
                };
                let ghost pend = views_of(self.pending_deletions@);
                let ghost rows_before = views_of(self.rows@);
                let paired = self.pending_deletions.pop();
                proof {
                    if pend.len() > 0 {
                        assert(views_of(self.pending_deletions@) =~= pend.drop_last());
                    } else {
                        assert(views_of(self.pending_deletions@) =~= pend);
                    }
                }
                let row = DiffRow { old_line: paired, new_line: new_info };
                self.rows.push(row);
                assert(views_of(self.rows@) =~= rows_before.push(row.deep_view()));
                if new_content.is_some() {
                    self.new_line = if self.new_line == u32::MAX { 0 } else { self.new_line + 1 };
                }
            },
        }
    }

    /// The finished hunk, see [`build_spec`].
    pub fn build(self) -> (r: DiffHunk)
        ensures
            r.deep_view() == build_spec(self@),
    {
        let mut b = self;
        b.flush_pending_deletions();
        DiffHunk {
            old_start: b.info.old_start,
            old_count: b.info.old_count,
            new_start: b.info.new_start,
            new_count: b.info.new_count,
            header: b.header,
            rows: b.rows,
        }
    }
}

// ---------------------------------------------------------------------------
// Reading a diff line by line
// ---------------------------------------------------------------------------

/// What a line inside a hunk is.
#[derive(Debug, Clone, Copy, PartialEq, Eq, Structural)]
pub enum DiffLineKind {
    /// An added line (starts with `+`, not `+++`).
    Added,
    /// A removed line (starts with `-`, not `---`).
    Deleted,
    /// A context line (starts with a space, or plain text).
    Context,
    /// A file marker (`+++`, `---`) or a special marker (`\`).
    Skip,
}

/// What a line inside a hunk is.
pub open spec fn classify_spec(line: Seq<char>) -> DiffLineKind {
    if starts_with(line, "+++"@) || starts_with(line, "---"@) || (line.len() > 0 && line[0] == '\\') {
        DiffLineKind::Skip
    } else if line.len() > 0 && line[0] == '+' {
        DiffLineKind::Added
    } else if line.len() > 0 && line[0] == '-' {
        DiffLineKind::Deleted
    } else {
        DiffLineKind::Context
    }
}

/// The text of a line inside a hunk, without its marker.
pub open spec fn extract_spec(line: Seq<char>, kind: DiffLineKind) -> Seq<char> {
    match kind {
        DiffLineKind::Added | DiffLineKind::Deleted => if line.len() > 1 {
            line.skip(1)
        } else {
            seq![]
        },
        DiffLineKind::Context => if line.len() > 1 && line[0] == ' ' {
            line.skip(1)
        } else {
            line
        },
        DiffLineKind::Skip => seq![],
    }
}

/// Classifies a line inside a hunk, see [`classify_spec`].
pub fn classify_diff_line(line: &str) -> (r: DiffLineKind)
    ensures
        r == classify_spec(line@),
{
    let cs = chars_of(line);
    assert(cs@.skip(0) =~= cs@);
    if has_str_prefix_at(&cs, 0, "+++") || has_str_prefix_at(&cs, 0, "---") || (cs.len() > 0 && cs[0] == '\\') {
        DiffLineKind::Skip
    } else if cs.len() > 0 && cs[0] == '+' {
        DiffLineKind::Added
    } else if cs.len() > 0 && cs[0] == '-' {
        DiffLineKind::Deleted
    } else {
        DiffLineKind::Context
    }
}

/// The text of a line inside a hunk, see [`extract_spec`].
pub fn extract_line_content(line: &str, kind: DiffLineKind) -> (r: String)
    ensures
        r@ == extract_spec(line@, kind),
{
    let cs = chars_of(line);
    let len = cs.len();
    assert(cs@.subrange(1, len as int) =~= cs@.skip(1));
    match kind {
        DiffLineKind::Added | DiffLineKind::Deleted => if len > 1 {
            string_of(&cs, 1, len)
        } else {
            String::new()
        },
        DiffLineKind::Context => if len > 1 && cs[0] == ' ' {
            string_of(&cs, 1, len)
        } else {
            line.to_owned()
        },
        DiffLineKind::Skip => String::new(),
    }
}

/// The words of `line`, see [`words`].
pub fn split_words(line: &str) -> (r: Vec<String>)
    ensures
        string_views(r@) == words(line@),
{
    let cs = chars_of(line);
    let len = cs.len();
    let mut out: Vec<String> = Vec::new();
    let mut pos: usize = 0;
    assert(cs@.skip(0) =~= cs@);
    assert(string_views(out@) + words(cs@.skip(0)) =~= words(line@));
    loop
        invariant
            pos <= len == cs@.len(),
            cs@ == line@,
            string_views(out@) + words(cs@.skip(pos as int)) == words(line@),
        decreases len - pos,
    {
        let ghost t0 = cs@.skip(pos as int);
        let a = span(&cs, pos, CharClass::Whitespace);
        let ghost t = trim_start(t0);
        assert(cs@.skip(a as int) =~= t);
        proof {
            crate::text::lemma_span_len(t0, CharClass::Whitespace);
            lemma_word_len(t);
        }
        if a == len {
            assert(words(t0) =~= seq![]);
            assert(string_views(out@) + seq![] =~= string_views(out@));
            return out;
        }
        let e = word_end(&cs, a);
        let w = string_of(&cs, a, e);
        assert(cs@.subrange(a as int, e as int) =~= t.take(word_len(t) as int));
        assert(cs@.skip(e as int) =~= t.skip(word_len(t) as int));
        let ghost before = string_views(out@);
        out.push(w);
        assert(string_views(out@) =~= before.push(w@));
        assert(words(t0) == seq![t.take(word_len(t) as int)] + words(t.skip(word_len(t) as int)));
        assert(string_views(out@) + words(cs@.skip(e as int)) =~= before + words(t0));
        pos = e;
    }
}

/// Reads `git diff` output line by line.
pub struct DiffParser {
    files: Vec<FileDiff>,
    current_file: Option<FileDiff>,
    current_hunk: Option<HunkBuilder>,
}

/// The state of the reader: the finished files, the file being read and
/// the hunk being read.
pub struct DiffParserView {
    pub files: Seq<FileDiffView>,
    pub current_file: Option<FileDiffView>,
    pub current_hunk: Option<HunkBuilderView>,
}

impl View for DiffParser {
    type V = DiffParserView;

    closed spec fn view(&self) -> DiffParserView {
        DiffParserView {
            files: views_of(self.files@),
            current_file: match self.current_file {
                Some(f) => Some(f.deep_view()),
                None => None,
            },
            current_hunk: match self.current_hunk {
                Some(h) => Some(h@),
                None => None,
            },
        }
    }
}

/// A file with the hunk being read, if any, finished and added.
pub open spec fn close_file(f: FileDiffView, h: Option<HunkBuilderView>) -> FileDiffView {
    match h {
        Some(b) => FileDiffView { path: f.path, old_path: f.old_path, status: f.status, hunks: f.hunks.push(build_spec(b)) },
        None => f,
    }
}

/// `s` without the prefix `p`, when it has it.
pub open spec fn strip_prefix_or_self(s: Seq<char>, p: Seq<char>) -> Seq<char> {
    if starts_with(s, p) {
        s.skip(p.len() as int)
    } else {
        s
    }
}

/// The file that a `diff --git a/<old> b/<new>` line starts, if it has four words.
pub open spec fn file_of_header(line: Seq<char>) -> Option<FileDiffView> {
    let ws = words(line);
    if ws.len() >= 4 {
        let old = strip_prefix_or_self(ws[2], "a/"@);
        let new = strip_prefix_or_self(ws[3], "b/"@);
        Some(FileDiffView {
            path: new,
            old_path: if old != new { Some(old) } else { None },
            status: FileStatus::Modified,
            hunks: seq![],
        })
    } else {
        None
    }
}

/// A `diff --git` line: the file being read is finished, a new one starts.
pub open spec fn start_new_file_spec(st: DiffParserView, line: Seq<char>) -> DiffParserView {
    match st.current_file {
        Some(f) => DiffParserView {
            files: st.files.push(close_file(f, st.current_hunk)),
            current_file: file_of_header(line),
            current_hunk: None,
        },
        None => DiffParserView { files: st.files, current_file: file_of_header(line), current_hunk: st.current_hunk },
    }
}

/// A `@@` line: within a file, the hunk being read is finished and a new
/// one starts if the header reads.
pub open spec fn start_new_hunk_spec(st: DiffParserView, line: Seq<char>) -> DiffParserView {
    match st.current_file {
        None => st,
        Some(f) => DiffParserView {
            files: st.files,
            current_file: Some(close_file(f, st.current_hunk)),
            current_hunk: match hunk_header_spec(line) {
                Some(info) => Some(new_builder(info, line)),
                None => None,
            },
        },
    }
}

/// A header line outside hunks: a new, deleted or renamed file changes its status.
pub open spec fn header_line_spec(st: DiffParserView, line: Seq<char>) -> DiffParserView {
    if starts_with(line, "---"@) || starts_with(line, "+++"@) {
        st
    } else {
        match st.current_file {
            None => st,
            Some(f) => DiffParserView {
                files: st.files,
                current_file: Some(FileDiffView {
                    path: f.path,
                    old_path: f.old_path,
                    status: if starts_with(line, "new file mode"@) {
                        FileStatus::Added
                    } else if starts_with(line, "deleted file mode"@) {
                        FileStatus::Deleted
                    } else if starts_with(line, "rename from"@) {
                        FileStatus::Renamed
                    } else {
                        f.status
                    },
                    hunks: f.hunks,
                }),
                current_hunk: st.current_hunk,
            },
        }
    }
}

/// A line inside a hunk, added to it.
pub open spec fn diff_line_spec(st: DiffParserView, line: Seq<char>) -> DiffParserView {
    match st.current_hunk {
        None => st,
        Some(b) => {
            let k = classify_spec(line);
            let c = extract_spec(line, k);
            DiffParserView {
                files: st.files,
                current_file: st.current_file,
                current_hunk: Some(match k {
                    DiffLineKind::Added => add_line_spec(b, None, Some(c), LineType::Addition),
                    DiffLineKind::Deleted => add_line_spec(b, Some(c), None, LineType::Deletion),
                    DiffLineKind::Context => add_line_spec(b, Some(c), Some(c), LineType::Context),
                    DiffLineKind::Skip => b,
                }),
            }
        },
    }
}

/// One line of `git diff` output read.
pub open spec fn process_line_spec(st: DiffParserView, line: Seq<char>) -> DiffParserView {
    if starts_with(line, "diff --git"@) {
        start_new_file_spec(st, line)
    } else if starts_with(line, "@@"@) {
        start_new_hunk_spec(st, line)
    } else if st.current_hunk is Some {
        diff_line_spec(st, line)
    } else {
        header_line_spec(st, line)
    }
}

/// The files read once the input ends.
pub open spec fn finish_spec(st: DiffParserView) -> Seq<FileDiffView> {
    match st.current_file {
        Some(f) => st.files.push(close_file(f, st.current_hunk)),
        None => st.files,
    }
}

/// The state after reading the lines `ls`.
pub open spec fn run_lines(ls: Seq<Seq<char>>) -> DiffParserView
    decreases ls.len(),
{
    if ls.len() == 0 {
        DiffParserView { files: seq![], current_file: None, current_hunk: None }
    } else {
        process_line_spec(run_lines(ls.drop_last()), ls.last())
    }
}

impl DiffParser {
    /// A reader that has read nothing.
    pub fn new() -> (r: Self)
        ensures
            r@ == (DiffParserView { files: seq![], current_file: None, current_hunk: None }),
    {
        let r = DiffParser { files: Vec::new(), current_file: None, current_hunk: None };
        assert(views_of(r.files@) =~= seq![]);
        r
    }

    /// Adds a finished hunk to a file.
    fn close(f: FileDiff, h: Option<HunkBuilder>) -> (r: FileDiff)
        ensures
            r.deep_view() == close_file(f.deep_view(), match h { Some(b) => Some(b@), None => None }),
    {
        match h {
            Some(b) => {
                let mut f = f;
                let ghost before = views_of(f.hunks@);
                let hunk = b.build();
                f.hunks.push(hunk);
                assert(views_of(f.hunks@) =~= before.push(hunk.deep_view()));
                f
            },
            None => f,
        }
    }

    /// Reads a `diff --git` line, see [`start_new_file_spec`].
    pub fn start_new_file(&mut self, line: &str)
        ensures
            final(self)@ == start_new_file_spec(old(self)@, line@),
    {
        let cur = self.current_file.take();
        match cur {
            Some(f) => {
                let h = self.current_hunk.take();
                let closed = Self::close(f, h);
                let ghost before = views_of(self.files@);
                self.files.push(closed);
                assert(views_of(self.files@) =~= before.push(closed.deep_view()));
            },
            None => {},
        }
        let parts = split_words(line);
        if parts.len() >= 4 {
            let p2 = chars_of(parts[2].as_str());
            let p3 = chars_of(parts[3].as_str());
            proof {
                reveal_strlit("a/");
                reveal_strlit("b/");
                assert(p2@.skip(0) =~= p2@);
                assert(p3@.skip(0) =~= p3@);
            }
            let old_path = if has_str_prefix_at(&p2, 0, "a/") {
                string_of(&p2, 2, p2.len())
            } else {
                string_from(&p2)
            };
            let new_path = if has_str_prefix_at(&p3, 0, "b/") {
                string_of(&p3, 2, p3.len())
            } else {
                string_from(&p3)
            };
            proof {
                reveal_strlit("a/");
                reveal_strlit("b/");
                assert(p2@.skip(0) =~= p2@);
                assert(p3@.skip(0) =~= p3@);
                assert(p2@.subrange(2, p2@.len() as int) =~= p2@.skip(2));
                assert(p3@.subrange(2, p3@.len() as int) =~= p3@.skip(2));
                assert(string_views(parts@)[2] == parts@[2]@);
                assert(string_views(parts@)[3] == parts@[3]@);
            }
            let differ = !str_eq(old_path.as_str(), new_path.as_str());
            let f = FileDiff {
                path: new_path,
                old_path: if differ { Some(old_path) } else { None },
                status: FileStatus::Modified,
                hunks: Vec::new(),
            };
            assert(views_of(f.hunks@) =~= seq![]);
            self.current_file = Some(f);
        }
    }

    /// Reads a `@@` line, see [`start_new_hunk_spec`].
    pub fn start_new_hunk(&mut self, line: &str)
        ensures
            final(self)@ == start_new_hunk_spec(old(self)@, line@),
    {
        let cur = self.current_file.take();
        match cur {
            Some(f) => {
                let h = self.current_hunk.take();
                self.current_file = Some(Self::close(f, h));
                self.current_hunk = match parse_hunk_header(line) {
                    Some(info) => Some(HunkBuilder::new(info, line.to_owned())),
                    None => None,
                };
            },
            None => {},
        }
    }

    /// Reads a header line outside hunks, see [`header_line_spec`].
    pub fn process_header_line(&mut self, line: &str)
        ensures
            final(self)@ == header_line_spec(old(self)@, line@),
    {
        let cs = chars_of(line);
        assert(cs@.skip(0) =~= cs@);
        if has_str_prefix_at(&cs, 0, "---") || has_str_prefix_at(&cs, 0, "+++") {
            return;
        }
        let cur = self.current_file.take();
        match cur {
            Some(f) => {
                let mut f = f;
                if has_str_prefix_at(&cs, 0, "new file mode") {
                    f.status = FileStatus::Added;
                } else if has_str_prefix_at(&cs, 0, "deleted file mode") {
                    f.status = FileStatus::Deleted;
                } else if has_str_prefix_at(&cs, 0, "rename from") {
                    f.status = FileStatus::Renamed;
                }
                self.current_file = Some(f);
            },
            None => {},
        }
    }

    /// Reads a line inside a hunk, see [`diff_line_spec`].
    pub fn process_diff_line(&mut self, line: &str)
        ensures
            final(self)@ == diff_line_spec(old(self)@, line@),
    {
        let cur = self.current_hunk.take();
        match cur {
            Some(b) => {
                let mut b = b;
                let kind = classify_diff_line(line);
                let content = extract_line_content(line, kind);
                match kind {
                    DiffLineKind::Added => b.add_line(None, Some(content.as_str()), LineType::Addition),
                    DiffLineKind::Deleted => b.add_line(Some(content.as_str()), None, LineType::Deletion),
                    DiffLineKind::Context => b.add_line(Some(content.as_str()), Some(content.as_str()), LineType::Context),
                    DiffLineKind::Skip => {},
                }
                self.current_hunk = Some(b);
            },
            None => {},
        }
    }

    /// Reads one line, see [`process_line_spec`].
    pub fn process_line(&mut self, line: &str)
        ensures
            final(self)@ == process_line_spec(old(self)@, line@),
    {
        let cs = chars_of(line);
        assert(cs@.skip(0) =~= cs@);
        if has_str_prefix_at(&cs, 0, "diff --git") {
            self.start_new_file(line);
        } else if has_str_prefix_at(&cs, 0, "@@") {
            self.start_new_hunk(line);
        } else if self.current_hunk.is_some() {
            self.process_diff_line(line);
        } else {
            self.process_header_line(line);
        }
    }

    /// The files read, the last one finished, see [`finish_spec`].
    pub fn finish(self) -> (r: SideBySideDiff)
        ensures
            r.deep_view() == finish_spec(self@),
    {
        let mut files = self.files;
        match self.current_file {
            Some(f) => {
                let closed = Self::close(f, self.current_hunk);
                let ghost before = views_of(files@);
                files.push(closed);
                assert(views_of(files@) =~= before.push(closed.deep_view()));
            },
            None => {},
        }
        SideBySideDiff { files }
    }
}

impl SideBySideDiff {
    /// Reads the output of `git diff`, line by line.
    pub fn parse(source: &str) -> (r: Self)
        ensures
            r.deep_view() == finish_spec(run_lines(lines_of(source@))),
    {
        let lines = split_lines(source);
        let ghost ls = string_views(lines@);
        let mut parser = DiffParser::new();
        let mut i: usize = 0;
        while i < lines.len()
            invariant
                i <= lines@.len(),
                ls == string_views(lines@),
                parser@ == run_lines(ls.take(i as int)),
            decreases lines@.len() - i,
        {
            parser.process_line(lines[i].as_str());
            proof {
                assert(ls.take(i + 1).drop_last() =~= ls.take(i as int));
                assert(ls.take(i + 1).last() == lines@[i as int]@);
            }
            i += 1;
        }
        assert(ls.take(i as int) =~= ls);
        parser.finish()
    }
}

// ---------------------------------------------------------------------------
// Finding the hunk of a line, and back to unified diff text
// ---------------------------------------------------------------------------

/// The first of `files[from..]` with path `path`.
pub open spec fn file_index_of(files: Seq<FileDiffView>, path: Seq<char>, from: int) -> Option<int>
    decreases files.len() - from,
{
    if from < 0 || from >= files.len() {
        None
    } else if files[from].path == path {
        Some(from)
    } else {
        file_index_of(files, path, from + 1)
    }
}

/// The first of `hunks[from..]` whose new range holds `line`.
pub open spec fn covering_hunk(hunks: Seq<DiffHunkView>, line: int, from: int) -> Option<int>
    decreases hunks.len() - from,
{
    if from < 0 || from >= hunks.len() {
        None
    } else if hunks[from].new_start <= line < hunks[from].new_start + hunks[from].new_count {
        Some(from)
    } else {
        covering_hunk(hunks, line, from + 1)
    }
}

/// How far the middle of a hunk's new range lies from `line`.
pub open spec fn hunk_distance(h: DiffHunkView, line: int) -> int {
    let mid = h.new_start + h.new_count / 2;
    if mid >= line {
        mid - line
    } else {
        line - mid
    }
}

/// The first of `hunks[..n]` whose middle lies nearest to `line`.
pub open spec fn nearest_hunk(hunks: Seq<DiffHunkView>, line: int, n: int) -> Option<int>
    decreases n,
{
    if n <= 0 {
        None
    } else {
        match nearest_hunk(hunks, line, n - 1) {
            None => Some(n - 1),
            Some(b) => if hunk_distance(hunks[n - 1], line) < hunk_distance(hunks[b], line) {
                Some(n - 1)
            } else {
                Some(b)
            },
        }
    }
}

proof fn lemma_nearest_hunk(hunks: Seq<DiffHunkView>, line: int, n: int)
    ensures
        nearest_hunk(hunks, line, n) matches Some(b) ==> 0 <= b < n,
        n > 0 ==> nearest_hunk(hunks, line, n) is Some,
    decreases n,
{
    if n > 0 {
        lemma_nearest_hunk(hunks, line, n - 1);
    }
}

/// The hunk for `line` of the file `path`: the one whose new range holds
/// the line, else the nearest one; as indexes of file and hunk.
pub open spec fn find_hunk_spec(files: Seq<FileDiffView>, path: Seq<char>, line: int) -> Option<(int, int)> {
    match file_index_of(files, path, 0) {
        None => None,
        Some(f) => match covering_hunk(files[f].hunks, line, 0) {
            Some(h) => Some((f, h)),
            None => match nearest_hunk(files[f].hunks, line, files[f].hunks.len() as int) {
                Some(h) => Some((f, h)),
                None => None,
            },
        },
    }
}

impl SideBySideDiff {
    fn file_index(&self, path: &str) -> (r: Option<usize>)
        ensures
            match file_index_of(self.deep_view(), path@, 0) {
                Some(f) => 0 <= f < self.files@.len() && r == Some(f as usize),
                None => r is None,
            },
    {
        let mut i: usize = 0;
        while i < self.files.len()
            invariant
                i <= self.files@.len(),
                file_index_of(self.deep_view(), path@, 0) == file_index_of(self.deep_view(), path@, i as int),
            decreases self.files@.len() - i,
        {
            assert(self.deep_view()[i as int] == self.files@[i as int].deep_view());
            if str_eq(self.files[i].path.as_str(), path) {
                return Some(i);
            }
            i += 1;
        }
        None
    }

    /// The hunk of file `path` that holds `line` in its new range, else the
    /// one whose middle lies nearest to it.
    pub fn find_hunk(&self, path: &str, line: u32) -> (r: Option<&DiffHunk>)
        ensures
            match find_hunk_spec(self.deep_view(), path@, line as int) {
                Some((f, h)) => 0 <= f < self.files@.len() && 0 <= h < self.files@[f].hunks@.len()
                    && r == Some(&self.files@[f].hunks@[h]),
                None => r is None,
            },
    {
        let nfiles = self.files.len();
        let pos = self.file_index(path);
        let fi = match pos {
            None => return None,
            Some(f) => f,
        };
        proof {
            match file_index_of(self.deep_view(), path@, 0) {
                Some(f) => {
                    assert(fi as int == f);
                },
                None => {
                    assert(pos is None);
                },
            }
        }
        let file = &self.files[fi];
        let ghost hs = views_of(file.hunks@);
        assert(hs == self.deep_view()[fi as int].hunks);
        let l = line as u64;
        let mut k: usize = 0;
        while k < file.hunks.len()
            invariant
                k <= file.hunks@.len(),
                fi < self.files@.len(),
                *file == self.files@[fi as int],
                hs == views_of(file.hunks@),
                hs == self.deep_view()[fi as int].hunks,
                file_index_of(self.deep_view(), path@, 0) == Some(fi as int),
                l == line,
                covering_hunk(hs, line as int, 0) == covering_hunk(hs, line as int, k as int),
            decreases file.hunks@.len() - k,
        {
            let h = &file.hunks[k];
            assert(hs[k as int] == h.deep_view());
            let end = h.new_start as u64 + h.new_count as u64;
            if l >= h.new_start as u64 && l < end {
                return Some(h);
            }
            k += 1;
        }
        let mut best: Option<usize> = None;
        let mut best_dist: u64 = 0;
        let mut j: usize = 0;
        while j < file.hunks.len()
            invariant
                j <= file.hunks@.len(),
                hs == views_of(file.hunks@),
                l == line,
                match nearest_hunk(hs, line as int, j as int) {
                    None => best is None,
                    Some(b) => best == Some(b as usize) && best_dist == hunk_distance(hs[b], line as int),
                },
            decreases file.hunks@.len() - j,
        {
            proof {
                lemma_nearest_hunk(hs, line as int, j as int);
            }
            let h = &file.hunks[j];
            assert(hs[j as int] == h.deep_view());
            let mid = h.new_start as u64 + (h.new_count / 2) as u64;
            let dist = if mid >= l { mid - l } else { l - mid };
            match best {
                None => {
                    best = Some(j);
                    best_dist = dist;
                },
                Some(_) => {
                    if dist < best_dist {
                        best = Some(j);
                        best_dist = dist;
                    }
                },
            }
            j += 1;
        }
        proof {
            lemma_nearest_hunk(hs, line as int, j as int);
        }
        match best {
            None => None,
            Some(b) => Some(&file.hunks[b]),
        }
    }
}

/// The text of a row in a unified diff, after the line break before it:
/// a context line, a removed and an added line, or one of them.
pub open spec fn row_text(r: DiffRowView) -> Seq<char> {
    match (r.old_line, r.new_line) {
        (Some(o), Some(n)) => if o.line_type == LineType::Context && n.line_type == LineType::Context {
            "\n "@ + n.content
        } else if o.line_type == LineType::Deletion && n.line_type == LineType::Addition {
            "\n-"@ + o.content + "\n+"@ + n.content
        } else {
            seq![]
        },
        (Some(o), None) => if o.line_type == LineType::Deletion {
            "\n-"@ + o.content
        } else {
            seq![]
        },
        (None, Some(n)) => if n.line_type == LineType::Addition {
            "\n+"@ + n.content
        } else {
            seq![]
        },
        (None, None) => seq![],
    }
}

/// A hunk as unified diff text: its header line and its rows.
pub open spec fn hunk_unified(h: DiffHunkView) -> Seq<char> {
    h.header + concat_map(h.rows, |r: DiffRowView| row_text(r))
}

impl DiffHunk {
    /// The hunk as unified diff text, see [`hunk_unified`].
    pub fn to_unified(&self) -> (r: String)
        ensures
            r@ == hunk_unified(self.deep_view()),
    {
        let mut out: Vec<char> = Vec::new();
        push_str(&mut out, self.header.as_str());
        let ghost start = out@;
        let ghost rv = views_of(self.rows@);
        let mut i: usize = 0;
        while i < self.rows.len()
            invariant
                i <= self.rows@.len(),
                rv == views_of(self.rows@),
                out@ == start + concat_map(rv.take(i as int), |r: DiffRowView| row_text(r)),
            decreases self.rows@.len() - i,
        {
            let row = &self.rows[i];
            match (&row.old_line, &row.new_line) {
                (Some(o), Some(n)) => {
                    if o.line_type == LineType::Context && n.line_type == LineType::Context {
                        push_str(&mut out, "\n ");
                        push_str(&mut out, n.content.as_str());
                    } else if o.line_type == LineType::Deletion && n.line_type == LineType::Addition {
                        push_str(&mut out, "\n-");
                        push_str(&mut out, o.content.as_str());
                        push_str(&mut out, "\n+");
                        push_str(&mut out, n.content.as_str());
                    }
                },
                (Some(o), None) => {
                    if o.line_type == LineType::Deletion {
                        push_str(&mut out, "\n-");
                        push_str(&mut out, o.content.as_str());
                    }
                },
                (None, Some(n)) => {
                    if n.line_type == LineType::Addition {
                        push_str(&mut out, "\n+");
                        push_str(&mut out, n.content.as_str());
                    }
                },
                (None, None) => {},
            }
            proof {
                assert(rv[i as int] == row.deep_view());
                lemma_concat_map_step(rv, |r: DiffRowView| row_text(r), i as int);
            }
            i += 1;
        }
        assert(rv.take(i as int) =~= rv);
        assert(seq![] + hunk_unified(self.deep_view()) =~= out@);
        string_from(&out)
    }
}

} // verus!
