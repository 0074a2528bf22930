use vstd::prelude::*;

use super::diff_header::{header_path, parse_diff_header_path};
use super::error::ParseError;
use super::parser::{first_line, first_line_of, line_parsed_as, LineParser, MultilineParser};
use super::path::Path;
use crate::text::{
    all_whitespace, chars_eq, has_str_prefix_at, is_blank, is_whitespace, is_ws, span, starts_with,
    sub_chars, trim_start, CharClass,
};

verus! {

/// A `---` or `+++` line of a file header.
///
/// Merge diffs can include several old (`---`) lines before the new (`+++`) one.
#[derive(PartialEq, Debug, Clone)]
pub enum FileHeaderLine {
    Old(OldFileHeaderLine),
    New(NewFileHeaderLine),
}

/// The content of a file header line: which side, and its path (`None` for `/dev/null`).
pub enum FileHeaderLineView {
    Old(Option<Seq<char>>),
    New(Option<Seq<char>>),
}

/// The text of an optional path.
pub open spec fn opt_path_view(p: Option<Path>) -> Option<Seq<char>> {
    match p {
        Some(x) => Some(x.deep_view()),
        None => None,
    }
}

/// The same optional path, owning its text.
pub fn opt_path_into_static(p: Option<Path>) -> (r: Option<Path>)
    ensures
        opt_path_view(r) == opt_path_view(p),
{
    match p {
        Some(x) => Some(x.into_static()),
        None => None,
    }
}

impl DeepView for FileHeaderLine {
    type V = FileHeaderLineView;

    open spec fn deep_view(&self) -> FileHeaderLineView {
        match self {
            FileHeaderLine::Old(l) => FileHeaderLineView::Old(opt_path_view(l.path)),
            FileHeaderLine::New(l) => FileHeaderLineView::New(opt_path_view(l.path)),
        }
    }
}

impl FileHeaderLine {
    /// The same line, owning its text.
    pub fn into_static(self) -> (r: Self)
        ensures
            r.deep_view() == self.deep_view(),
    {
        match self {
            FileHeaderLine::Old(l) => FileHeaderLine::Old(OldFileHeaderLine { path: opt_path_into_static(l.path) }),
            FileHeaderLine::New(l) => FileHeaderLine::New(NewFileHeaderLine { path: opt_path_into_static(l.path) }),
        }
    }
}

/// An old file header line, `--- a/<path>` or `--- /dev/null`.
#[derive(PartialEq, Debug, Clone)]
pub struct OldFileHeaderLine {
    pub path: Option<Path>,
}

impl DeepView for OldFileHeaderLine {
    type V = Option<Seq<char>>;

    open spec fn deep_view(&self) -> Option<Seq<char>> {
        opt_path_view(self.path)
    }
}

/// A new file header line, `+++ b/<path>` or `+++ /dev/null`.
#[derive(PartialEq, Debug, Clone)]
pub struct NewFileHeaderLine {
    pub path: Option<Path>,
}

impl DeepView for NewFileHeaderLine {
    type V = Option<Seq<char>>;

    open spec fn deep_view(&self) -> Option<Seq<char>> {
        opt_path_view(self.path)
    }
}

/// The path after a `---` or `+++` marker: whitespace, then `/dev/null`
/// (no path), a quoted path or `prefix` and the path.
pub open spec fn file_header_path(s: Seq<char>, prefix: Seq<char>) -> Result<Option<Seq<char>>, ParseError> {
    if !(s.len() > 0 && is_ws(s[0])) {
        Err(ParseError::MissingWhitespaceBeforePath)
    } else {
        let t = trim_start(s);
        if t == "/dev/null"@ {
            Ok(None)
        } else {
            match header_path(t, prefix) {
                Err(e) => Err(e),
                Ok((p, n)) => if is_blank(t.skip(n as int)) {
                    Ok(Some(p))
                } else {
                    Err(ParseError::TrailingContentInFileHeader)
                },
            }
        }
    }
}

/// What parsing a line that may start with `marker` yields.
pub open spec fn spec_file_header(s: Seq<char>, marker: Seq<char>, prefix: Seq<char>) -> Result<
    Option<Option<Seq<char>>>,
    ParseError,
> {
    if !starts_with(s, marker) {
        Ok(None)
    } else {
        match file_header_path(s.skip(marker.len() as int), prefix) {
            Err(e) => Err(e),
            Ok(p) => Ok(Some(p)),
        }
    }
}

/// Reads the path of a file header line at `cs[at..]`, see [`file_header_path`].
fn parse_file_header_path(cs: &Vec<char>, at: usize, prefix: &str) -> (r: Result<Option<Path>, ParseError>)
    requires
        at <= cs@.len(),
    ensures
        match file_header_path(cs@.skip(at as int), prefix@) {
            Ok(p) => r matches Ok(x) && opt_path_view(x) == p,
            Err(e) => r == Err::<Option<Path>, ParseError>(e),
        },
{
    let ghost s = cs@.skip(at as int);
    let len = cs.len();
    if at == len || !is_whitespace(cs[at]) {
        return Err(ParseError::MissingWhitespaceBeforePath);
    }
    assert(s[0] == cs@[at as int]);
    let b = span(cs, at, CharClass::Whitespace);
    assert(cs@.skip(b as int) =~= trim_start(s));
    let rest = sub_chars(cs, b, len);
    assert(rest@ =~= trim_start(s));
    let dev_null = crate::text::chars_of("/dev/null");
    if chars_eq(&rest, &dev_null) {
        return Ok(None);
    }
    let (p, n) = match parse_diff_header_path(cs, b, prefix) {
        Err(e) => return Err(e),
        Ok(x) => x,
    };
    let blank = all_whitespace(cs, b + n, len);
    assert(cs@.subrange(b + n, len as int) =~= trim_start(s).skip(n as int));
    if !blank {
        return Err(ParseError::TrailingContentInFileHeader);
    }
    Ok(Some(p))
}

/// Reads an old file header line, `--- <path>`.
#[derive(Debug, Default, Clone, Copy)]
pub struct OldFileHeaderLineParser;

impl LineParser for OldFileHeaderLineParser {
    type Output = OldFileHeaderLine;

    open spec fn spec_parse_line(&self, s: Seq<char>) -> Result<Option<Option<Seq<char>>>, ParseError> {
        spec_file_header(s, "---"@, "a/"@)
    }

    fn parse_line_chars(&self, cs: &Vec<char>, from: usize) -> (r: Result<Option<OldFileHeaderLine>, ParseError>) {
        let len = cs.len();
        if !has_str_prefix_at(cs, from, "---") {
            return Ok(None);
        }
        proof {
            reveal_strlit("---");
        }
        assert("---"@.len() == 3);
        assert(cs@.skip(from + 3) =~= cs@.skip(from as int).skip(3));
        let r = parse_file_header_path(cs, from + 3, "a/");
        assert(self.spec_parse_line(cs@.skip(from as int)) == match file_header_path(cs@.skip(from + 3), "a/"@) {
            Err(e) => Err(e),
            Ok(p) => Ok(Some(p)),
        });
        match r {
            Err(e) => Err(e),
            Ok(path) => {
                let line = OldFileHeaderLine { path };
                assert(line.deep_view() == opt_path_view(path));
                Ok(Some(line))
            },
        }
    }
}

/// Reads a new file header line, `+++ <path>`.
#[derive(Debug, Default, Clone, Copy)]
pub struct NewFileHeaderLineParser;

impl LineParser for NewFileHeaderLineParser {
    type Output = NewFileHeaderLine;

    open spec fn spec_parse_line(&self, s: Seq<char>) -> Result<Option<Option<Seq<char>>>, ParseError> {
        spec_file_header(s, "+++"@, "b/"@)
    }

    fn parse_line_chars(&self, cs: &Vec<char>, from: usize) -> (r: Result<Option<NewFileHeaderLine>, ParseError>) {
        let len = cs.len();
        if !has_str_prefix_at(cs, from, "+++") {
            return Ok(None);
        }
        proof {
            reveal_strlit("+++");
        }
        assert("+++"@.len() == 3);
        assert(cs@.skip(from + 3) =~= cs@.skip(from as int).skip(3));
        let r = parse_file_header_path(cs, from + 3, "b/");
        assert(self.spec_parse_line(cs@.skip(from as int)) == match file_header_path(cs@.skip(from + 3), "b/"@) {
            Err(e) => Err(e),
            Ok(p) => Ok(Some(p)),
        });
        match r {
            Err(e) => Err(e),
            Ok(path) => {
                let line = NewFileHeaderLine { path };
                assert(line.deep_view() == opt_path_view(path));
                Ok(Some(line))
            },
        }
    }
}

/// What parsing a file header line of either side yields.
pub open spec fn spec_file_header_line(s: Seq<char>) -> Result<Option<FileHeaderLineView>, ParseError> {
    match OldFileHeaderLineParser.spec_parse_line(s) {
        Err(e) => Err(e),
        Ok(Some(p)) => Ok(Some(FileHeaderLineView::Old(p))),
        Ok(None) => match NewFileHeaderLineParser.spec_parse_line(s) {
            Err(e) => Err(e),
            Ok(Some(p)) => Ok(Some(FileHeaderLineView::New(p))),
            Ok(None) => Ok(None),
        },
    }
}

/// Reads an old or a new file header line.
#[derive(Debug, Default, Clone, Copy)]
pub struct FileHeaderLineParser;

impl LineParser for FileHeaderLineParser {
    type Output = FileHeaderLine;

    open spec fn spec_parse_line(&self, s: Seq<char>) -> Result<Option<FileHeaderLineView>, ParseError> {
        spec_file_header_line(s)
    }

    fn parse_line_chars(&self, cs: &Vec<char>, from: usize) -> (r: Result<Option<FileHeaderLine>, ParseError>) {
        let ghost s = cs@.skip(from as int);
        let r1 = OldFileHeaderLineParser.parse_line_chars(cs, from);
        match r1 {
            Err(e) => return Err(e),
            Ok(Some(line)) => {
                assert(OldFileHeaderLineParser.spec_parse_line(s) == Ok::<Option<Option<Seq<char>>>, ParseError>(Some(line.deep_view())));
                let v = FileHeaderLine::Old(line);
                assert(v.deep_view() == FileHeaderLineView::Old(line.deep_view()));
                return Ok(Some(v));
            },
            Ok(None) => {},
        }
        let r2 = NewFileHeaderLineParser.parse_line_chars(cs, from);
        match r2 {
            Err(e) => Err(e),
            Ok(Some(line)) => {
                assert(NewFileHeaderLineParser.spec_parse_line(s) == Ok::<Option<Option<Seq<char>>>, ParseError>(Some(line.deep_view())));
                let v = FileHeaderLine::New(line);
                assert(v.deep_view() == FileHeaderLineView::New(line.deep_view()));
                Ok(Some(v))
            },
            Ok(None) => Ok(None),
        }
    }
}

impl MultilineParser for OldFileHeaderLineParser {
    type Output = OldFileHeaderLine;

    open spec fn spec_parse_lines(&self, ls: Seq<Seq<char>>) -> Result<Option<(Option<Seq<char>>, nat)>, ParseError> {
        first_line(|s: Seq<char>| self.spec_parse_line(s), ls)
    }

    fn parse_lines_at(&self, lines: &[&str], from: usize) -> (r: Result<Option<(OldFileHeaderLine, usize)>, ParseError>) {
        first_line_of(self, lines, from)
    }
}

impl MultilineParser for NewFileHeaderLineParser {
    type Output = NewFileHeaderLine;

    open spec fn spec_parse_lines(&self, ls: Seq<Seq<char>>) -> Result<Option<(Option<Seq<char>>, nat)>, ParseError> {
        first_line(|s: Seq<char>| self.spec_parse_line(s), ls)
    }

    fn parse_lines_at(&self, lines: &[&str], from: usize) -> (r: Result<Option<(NewFileHeaderLine, usize)>, ParseError>) {
        first_line_of(self, lines, from)
    }
}

impl MultilineParser for FileHeaderLineParser {
    type Output = FileHeaderLine;

    open spec fn spec_parse_lines(&self, ls: Seq<Seq<char>>) -> Result<Option<(FileHeaderLineView, nat)>, ParseError> {
        first_line(|s: Seq<char>| self.spec_parse_line(s), ls)
    }

    fn parse_lines_at(&self, lines: &[&str], from: usize) -> (r: Result<Option<(FileHeaderLine, usize)>, ParseError>) {
        first_line_of(self, lines, from)
    }
}

} // verus!
