//! The diff as the review page shows it: each side of each chunk
//! highlighted as code of the file's language.
use std::ops::Range;

use vstd::prelude::*;

use crate::apply::joined_lines;
use crate::diff::chunk_header::range_view;
use crate::diff::parser::views_of;
use crate::language::{detect_language, language_of};
use crate::side_by_side_diff::{
    display_path_of, previous_path_of, FileStatus, LineStatus, SideBySideChunk, SideBySideChunkView,
    SideBySideDiff, SideBySideFile, SideBySideLine, SideBySideLineView,
};
use crate::text::{chars_of, lines_of, push_str, split_lines, string_from, string_views};

verus! {

/// The HTML that syntect writes for `code` highlighted as the language
/// named `lang` with the default syntaxes and the default theme named
/// `theme`; `None` where no syntax or theme has that name or highlighting
/// fails.
pub uninterp spec fn syntect_html(code: Seq<char>, lang: Seq<char>, theme: Seq<char>) -> Option<Seq<char>>;

/// The theme the review page highlights code with.
pub const HIGHLIGHT_THEME: &'static str = "InspiredGitHub";

/// The text of capture group `group` of the first match of the regular
/// expression `pattern` in `text`; `None` where there is no match, the
/// group took part in none, or the pattern is not valid.
pub uninterp spec fn regex_capture(pattern: Seq<char>, text: Seq<char>, group: usize) -> Option<Seq<char>>;

/// What syntect wraps its HTML in: a `pre` element with a style.
pub const PRE_TAG_PATTERN: &'static str = "^<pre style=\"[^\"]*\">\\n?([\\s\\S]*?)\\n?</pre>\\n?$";

/// Highlights `code` as the language `lang` with syntect.
///
/// Loads syntect's default syntaxes (`SyntaxSet::load_defaults_newlines`),
/// finds the syntax by `find_syntax_by_token`, loads the default themes
/// (`ThemeSet::load_defaults`), takes the theme named `theme` and calls
/// `html::highlighted_html_for_string`. The contract names the result
/// ([`syntect_html`]): the same code, language and theme give the same HTML.
#[verifier::external_body]
fn highlighted_html(code: &str, lang: &str, theme: &str) -> (r: Option<String>)
    ensures
        match syntect_html(code@, lang@, theme@) {
            Some(h) => r matches Some(x) && x@ == h,
            None => r is None,
        },
{
    let syntaxes = syntect::parsing::SyntaxSet::load_defaults_newlines();
    let syntax = syntaxes.find_syntax_by_token(lang)?;
    let themes = syntect::highlighting::ThemeSet::load_defaults();
    let theme = themes.themes.get(theme)?;
    syntect::html::highlighted_html_for_string(code, &syntaxes, syntax, theme).ok()
}

/// The text of a capture group of the first match of `pattern` in `text`.
///
/// Compiles `pattern` with `regex::Regex::new` and calls `captures` on
/// `text`; the contract names the result ([`regex_capture`]).
#[verifier::external_body]
fn capture_group(pattern: &str, text: &str, group: usize) -> (r: Option<String>)
    ensures
        match regex_capture(pattern@, text@, group) {
            Some(c) => r matches Some(x) && x@ == c,
            None => r is None,
        },
{
    let re = regex::Regex::new(pattern).ok()?;
    re.captures(text)?.get(group).map(|m| m.as_str().to_string())
}

/// The highlighted HTML lines of `code` as the language `lang`: syntect's
/// HTML without its `pre` element, split into lines.
pub open spec fn highlighted_lines_of(code: Seq<char>, lang: Seq<char>) -> Option<Seq<Seq<char>>> {
    match syntect_html(code, lang, HIGHLIGHT_THEME@) {
        None => None,
        Some(h) => match regex_capture(PRE_TAG_PATTERN@, h, 1) {
            None => None,
            Some(inner) => Some(lines_of(inner)),
        },
    }
}

/// Highlights `code` as the language `lang`, one string of HTML per line;
/// `None` where the language is not known or the HTML is not as expected.
pub fn highlight_code(code: &str, lang: &str) -> (r: Option<Vec<String>>)
    ensures
        match highlighted_lines_of(code@, lang@) {
            Some(ls) => r matches Some(v) && string_views(v@) == ls,
            None => r is None,
        },
{
    let html = highlighted_html(code, lang, HIGHLIGHT_THEME)?;
    let inner = capture_group(PRE_TAG_PATTERN, html.as_str(), 1)?;
    Some(split_lines(inner.as_str()))
}

/// A line as the review page shows it: its status, texts and, for each side
/// that has text, its highlighted HTML where there is some.
pub struct RenderedSideBySideLine {
    pub status: LineStatus,
    pub from: String,
    pub to: String,
    pub from_highlighted_html: Option<String>,
    pub to_highlighted_html: Option<String>,
}

/// A chunk as the review page shows it.
pub struct RenderedSideBySideChunk {
    pub from_range: Range<usize>,
    pub to_range: Range<usize>,
    pub lines: Vec<RenderedSideBySideLine>,
}

/// A file as the review page shows it.
pub struct RenderedSideBySideFile {
    pub from_path: String,
    pub to_path: String,
    pub display_path: String,
    pub previous_path: Option<String>,
    pub status: FileStatus,
    pub chunks: Vec<RenderedSideBySideChunk>,
}

/// The text of an optional string.
pub open spec fn opt_view(s: Option<String>) -> Option<Seq<char>> {
    match s {
        Some(x) => Some(x@),
        None => None,
    }
}

/// The status, texts and HTML of a rendered line.
pub struct RenderedLineView {
    pub status: LineStatus,
    pub from: Seq<char>,
    pub to: Seq<char>,
    pub from_html: Option<Seq<char>>,
    pub to_html: Option<Seq<char>>,
}

impl DeepView for RenderedSideBySideLine {
    type V = RenderedLineView;

    open spec fn deep_view(&self) -> RenderedLineView {
        RenderedLineView {
            status: self.status,
            from: self.from@,
            to: self.to@,
            from_html: opt_view(self.from_highlighted_html),
            to_html: opt_view(self.to_highlighted_html),
        }
    }
}

/// The ranges and lines of a rendered chunk.
pub struct RenderedChunkView {
    pub from_range: (int, int),
    pub to_range: (int, int),
    pub lines: Seq<RenderedLineView>,
}

impl DeepView for RenderedSideBySideChunk {
    type V = RenderedChunkView;

    open spec fn deep_view(&self) -> RenderedChunkView {
        RenderedChunkView {
            from_range: range_view(self.from_range),
            to_range: range_view(self.to_range),
            lines: views_of(self.lines@),
        }
    }
}

/// The paths, status and chunks of a rendered file.
pub struct RenderedFileView {
    pub from_path: Seq<char>,
    pub to_path: Seq<char>,
    pub display_path: Seq<char>,
    pub previous_path: Option<Seq<char>>,
    pub status: FileStatus,
    pub chunks: Seq<RenderedChunkView>,
}

impl DeepView for RenderedSideBySideFile {
    type V = RenderedFileView;

    open spec fn deep_view(&self) -> RenderedFileView {
        RenderedFileView {
            from_path: self.from_path@,
            to_path: self.to_path@,
            display_path: self.display_path@,
            previous_path: opt_view(self.previous_path),
            status: self.status,
            chunks: views_of(self.chunks@),
        }
    }
}

/// Whether a line has an old side (it was not added).
pub open spec fn has_from(l: SideBySideLineView) -> bool {
    l.status != LineStatus::Added
}

/// Whether a line has a new side (it was not removed).
pub open spec fn has_to(l: SideBySideLineView) -> bool {
    l.status != LineStatus::Removed
}

/// The old texts of the lines that have an old side, in order.
pub open spec fn from_texts(ls: Seq<SideBySideLineView>) -> Seq<Seq<char>>
    decreases ls.len(),
{
    if ls.len() == 0 {
        seq![]
    } else if has_from(ls.last()) {
        from_texts(ls.drop_last()).push(ls.last().from)
    } else {
        from_texts(ls.drop_last())
    }
}

/// The new texts of the lines that have a new side, in order.
pub open spec fn to_texts(ls: Seq<SideBySideLineView>) -> Seq<Seq<char>>
    decreases ls.len(),
{
    if ls.len() == 0 {
        seq![]
    } else if has_to(ls.last()) {
        to_texts(ls.drop_last()).push(ls.last().to)
    } else {
        to_texts(ls.drop_last())
    }
}

/// The highlighted lines of one side: none without a language, else the
/// lines of the side's text highlighted together (none where that fails).
pub open spec fn side_highlights(texts: Seq<Seq<char>>, lang: Seq<char>) -> Seq<Seq<char>> {
    if lang.len() == 0 {
        seq![]
    } else {
        match highlighted_lines_of(joined_lines(texts), lang) {
            Some(ls) => ls,
            None => seq![],
        }
    }
}

/// The highlighted line at `k`, where there is one.
pub open spec fn nth_highlight(hs: Seq<Seq<char>>, k: int) -> Option<Seq<char>> {
    if 0 <= k < hs.len() {
        Some(hs[k])
    } else {
        None
    }
}

/// Line `i` of a chunk as the review page shows it: the `n`-th line with an
/// old side takes the `n`-th highlighted old line, and the same for the new side.
pub open spec fn rendered_line(ls: Seq<SideBySideLineView>, i: int, lang: Seq<char>) -> RenderedLineView {
    let l = ls[i];
    RenderedLineView {
        status: l.status,
        from: l.from,
        to: l.to,
        from_html: if has_from(l) {
            nth_highlight(side_highlights(from_texts(ls), lang), from_texts(ls.take(i)).len() as int)
        } else {
            None
        },
        to_html: if has_to(l) {
            nth_highlight(side_highlights(to_texts(ls), lang), to_texts(ls.take(i)).len() as int)
        } else {
            None
        },
    }
}

/// A chunk as the review page shows it, see [`rendered_line`].
pub open spec fn rendered_chunk(c: SideBySideChunkView, lang: Seq<char>) -> RenderedChunkView {
    RenderedChunkView {
        from_range: c.from_range,
        to_range: c.to_range,
        lines: Seq::new(c.lines.len(), |i: int| rendered_line(c.lines, i, lang)),
    }
}

/// The strings joined with line breaks between them.
fn join_lines(v: &Vec<String>) -> (r: String)
    ensures
        r@ == joined_lines(string_views(v@)),
{
    let ghost sv = string_views(v@);
    let mut out: Vec<char> = Vec::new();
    let mut i: usize = 0;
    while i < v.len()
        invariant
            i <= v@.len(),
            sv == string_views(v@),
            out@ == joined_lines(sv.take(i as int)),
        decreases v@.len() - i,
    {
        if i > 0 {
            push_str(&mut out, "\n");
        }
        push_str(&mut out, v[i].as_str());
        proof {
            let t = sv.take(i + 1);
            assert(t.drop_last() =~= sv.take(i as int));
            if i == 0 {
                assert(t =~= seq![v@[0]@]);
            }
        }
        i += 1;
    }
    assert(sv.take(i as int) =~= sv);
    string_from(&out)
}

/// The highlighted lines of one side, see [`side_highlights`].
fn highlighted_lines(texts: &Vec<String>, lang: &str) -> (r: Vec<String>)
    ensures
        string_views(r@) == side_highlights(string_views(texts@), lang@),
{
    if chars_of(lang).len() == 0 {
        return Vec::new();
    }
    let code = join_lines(texts);
    match highlight_code(code.as_str(), lang) {
        Some(v) => v,
        None => {
            let v: Vec<String> = Vec::new();
            assert(string_views(v@) =~= seq![]);
            v
        },
    }
}

fn clone_opt(s: &Vec<String>, k: usize) -> (r: Option<String>)
    ensures
        opt_view(r) == nth_highlight(string_views(s@), k as int),
{
    if k < s.len() {
        Some(s[k].clone())
    } else {
        None
    }
}

/// A line as the review page shows it, with the highlighted HTML of its sides.
fn render_line(line: &SideBySideLine, from_html: Option<String>, to_html: Option<String>) -> (r: RenderedSideBySideLine)
    ensures
        r.deep_view() == (RenderedLineView {
            status: line.status,
            from: line.from@,
            to: line.to@,
            from_html: opt_view(from_html),
            to_html: opt_view(to_html),
        }),
{
    RenderedSideBySideLine {
        status: line.status,
        from: line.from.clone(),
        to: line.to.clone(),
        from_highlighted_html: from_html,
        to_highlighted_html: to_html,
    }
}

/// A chunk as the review page shows it: each side's lines highlighted as
/// code of the language `lang`, see [`rendered_chunk`].
pub fn render_chunk(chunk: &SideBySideChunk, lang: &str) -> (r: RenderedSideBySideChunk)
    ensures
        r.deep_view() == rendered_chunk(chunk.deep_view(), lang@),
{
    let ghost lv = views_of(chunk.lines@);
    let n = chunk.lines.len();
    let mut froms: Vec<String> = Vec::new();
    let mut tos: Vec<String> = Vec::new();
    let mut i: usize = 0;
    while i < n
        invariant
            n == chunk.lines@.len(),
            i <= n,
            lv == views_of(chunk.lines@),
            string_views(froms@) == from_texts(lv.take(i as int)),
            string_views(tos@) == to_texts(lv.take(i as int)),
        decreases n - i,
    {
        let line = &chunk.lines[i];
        assert(lv.take(i + 1).drop_last() =~= lv.take(i as int));
        assert(lv.take(i + 1).last() == line.deep_view());
        if !matches!(line.status, LineStatus::Added) {
            froms.push(line.from.clone());
            assert(string_views(froms@) =~= from_texts(lv.take(i + 1)));
        }
        if !matches!(line.status, LineStatus::Removed) {
            tos.push(line.to.clone());
            assert(string_views(tos@) =~= to_texts(lv.take(i + 1)));
        }
        i += 1;
    }
    assert(lv.take(n as int) =~= lv);
    let from_hl = highlighted_lines(&froms, lang);
    let to_hl = highlighted_lines(&tos, lang);
    let ghost fh = side_highlights(from_texts(lv), lang@);
    let ghost th = side_highlights(to_texts(lv), lang@);
    let mut lines: Vec<RenderedSideBySideLine> = Vec::new();
    let mut fi: usize = 0;
    let mut ti: usize = 0;
    let mut i: usize = 0;
    while i < n
        invariant
            n == chunk.lines@.len(),
            i <= n,
            lv == views_of(chunk.lines@),
            string_views(from_hl@) == fh,
            string_views(to_hl@) == th,
            fh == side_highlights(from_texts(lv), lang@),
            th == side_highlights(to_texts(lv), lang@),
            fi == from_texts(lv.take(i as int)).len(),
            ti == to_texts(lv.take(i as int)).len(),
            fi <= i,
            ti <= i,
            lines@.len() == i,
            forall|k: int| 0 <= k < i ==> #[trigger] lines@[k].deep_view() == rendered_line(lv, k, lang@),
        decreases n - i,
    {
        let line = &chunk.lines[i];
        assert(lv.take(i + 1).drop_last() =~= lv.take(i as int));
        assert(lv.take(i + 1).last() == line.deep_view());
        assert(lv[i as int] == line.deep_view());
        let from_html = if matches!(line.status, LineStatus::Added) {
            None
        } else {
            let h = clone_opt(&from_hl, fi);
            fi += 1;
            h
        };
        let to_html = if matches!(line.status, LineStatus::Removed) {
            None
        } else {
            let h = clone_opt(&to_hl, ti);
            ti += 1;
            h
        };
        lines.push(render_line(line, from_html, to_html));
        i += 1;
    }
    let r = RenderedSideBySideChunk {
        from_range: chunk.from_range.start..chunk.from_range.end,
        to_range: chunk.to_range.start..chunk.to_range.end,
        lines,
    };
    assert(r.deep_view().lines =~= rendered_chunk(chunk.deep_view(), lang@).lines);
    r
}

/// A file as the review page shows it: its paths and status, and its chunks
/// highlighted as code of the language of its path.
pub open spec fn rendered_file(f: crate::side_by_side_diff::SideBySideFileView) -> RenderedFileView {
    RenderedFileView {
        from_path: f.from_path,
        to_path: f.to_path,
        display_path: display_path_of(f),
        previous_path: previous_path_of(f),
        status: f.status,
        chunks: Seq::new(
            f.chunks.len(),
            |k: int| rendered_chunk(f.chunks[k], language_of(display_path_of(f))),
        ),
    }
}

/// Renders a file, see [`rendered_file`].
pub fn render_file(file: &SideBySideFile) -> (r: RenderedSideBySideFile)
    ensures
        r.deep_view() == rendered_file(file.deep_view()),
{
    let ghost fv = file.deep_view();
    let display = file.display_path();
    let lang = detect_language(display.as_str());
    let n = file.chunks.len();
    let mut chunks: Vec<RenderedSideBySideChunk> = Vec::new();
    let mut i: usize = 0;
    while i < n
        invariant
            n == file.chunks@.len(),
            i <= n,
            fv == file.deep_view(),
            lang@ == language_of(display_path_of(fv)),
            chunks@.len() == i,
            forall|k: int|
                0 <= k < i ==> #[trigger] chunks@[k].deep_view() == rendered_chunk(
                    fv.chunks[k],
                    language_of(display_path_of(fv)),
                ),
        decreases n - i,
    {
        assert(fv.chunks[i as int] == file.chunks@[i as int].deep_view());
        chunks.push(render_chunk(&file.chunks[i], lang));
        i += 1;
    }
    let previous_path = match file.previous_path() {
        Some(p) => Some(p.as_str().to_owned()),
        None => None,
    };
    let r = RenderedSideBySideFile {
        from_path: file.from_path.as_str().to_owned(),
        to_path: file.to_path.as_str().to_owned(),
        display_path: display.as_str().to_owned(),
        previous_path,
        status: file.status,
        chunks,
    };
    assert(r.deep_view().chunks =~= rendered_file(fv).chunks);
    r
}

/// The files of a diff as the review page shows them, see [`rendered_file`].
pub fn render_diff(diff: &SideBySideDiff) -> (r: Vec<RenderedSideBySideFile>)
    ensures
        r@.len() == diff.files@.len(),
        forall|k: int| 0 <= k < r@.len() ==> #[trigger] r@[k].deep_view() == rendered_file(diff.files@[k].deep_view()),
{
    let n = diff.files.len();
    let mut out: Vec<RenderedSideBySideFile> = Vec::new();
    let mut i: usize = 0;
    while i < n
        invariant
            n == diff.files@.len(),
            i <= n,
            out@.len() == i,
            forall|k: int| 0 <= k < i ==> #[trigger] out@[k].deep_view() == rendered_file(diff.files@[k].deep_view()),
        decreases n - i,
    {
        out.push(render_file(&diff.files[i]));
        i += 1;
    }
    out
}

} // verus!
