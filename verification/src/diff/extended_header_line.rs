use vstd::prelude::*;
use vstd::string::*;

use super::error::ParseError;
use super::index_line::{IndexLine, IndexLineParser, IndexLineView};
use super::mode::{Mode, ModeParser};
use super::parser::{first_line, first_line_of, required, LineParser, MultilineParser};
use super::path::{Path, PathParser};
use super::percentage::{Percentage, PercentageParser};
use crate::text::{has_str_prefix_at, is_whitespace, is_ws, span, starts_with, trim_start, CharClass};

verus! {

/// A single extended header line from a git patch.
///
/// Example: `rename from old.rs` becomes `ExtendedHeaderLine::RenameFrom`.
#[derive(PartialEq, Debug, Clone)]
pub enum ExtendedHeaderLine {
    OldMode(Mode),
    NewMode(Mode),
    DeletedFileMode(Mode),
    NewFileMode(Mode),
    CopyFrom(Path),
    CopyTo(Path),
    RenameFrom(Path),
    RenameTo(Path),
    SimilarityIndex(Percentage),
    DissimilarityIndex(Percentage),
    Index(IndexLine),
}

/// The content of an extended header line.
pub enum ExtendedHeaderLineView {
    OldMode(Seq<char>),
    NewMode(Seq<char>),
    DeletedFileMode(Seq<char>),
    NewFileMode(Seq<char>),
    CopyFrom(Seq<char>),
    CopyTo(Seq<char>),
    RenameFrom(Seq<char>),
    RenameTo(Seq<char>),
    SimilarityIndex(u8),
    DissimilarityIndex(u8),
    Index(IndexLineView),
}

impl DeepView for ExtendedHeaderLine {
    type V = ExtendedHeaderLineView;

    open spec fn deep_view(&self) -> ExtendedHeaderLineView {
        match self {
            ExtendedHeaderLine::OldMode(m) => ExtendedHeaderLineView::OldMode(m.deep_view()),
            ExtendedHeaderLine::NewMode(m) => ExtendedHeaderLineView::NewMode(m.deep_view()),
            ExtendedHeaderLine::DeletedFileMode(m) => ExtendedHeaderLineView::DeletedFileMode(m.deep_view()),
            ExtendedHeaderLine::NewFileMode(m) => ExtendedHeaderLineView::NewFileMode(m.deep_view()),
            ExtendedHeaderLine::CopyFrom(p) => ExtendedHeaderLineView::CopyFrom(p.deep_view()),
            ExtendedHeaderLine::CopyTo(p) => ExtendedHeaderLineView::CopyTo(p.deep_view()),
            ExtendedHeaderLine::RenameFrom(p) => ExtendedHeaderLineView::RenameFrom(p.deep_view()),
            ExtendedHeaderLine::RenameTo(p) => ExtendedHeaderLineView::RenameTo(p.deep_view()),
            ExtendedHeaderLine::SimilarityIndex(x) => ExtendedHeaderLineView::SimilarityIndex(x.0),
            ExtendedHeaderLine::DissimilarityIndex(x) => ExtendedHeaderLineView::DissimilarityIndex(x.0),
            ExtendedHeaderLine::Index(i) => ExtendedHeaderLineView::Index(i.deep_view()),
        }
    }
}

impl ExtendedHeaderLine {
    /// The same line, owning its text.
    pub fn into_static(self) -> (r: Self)
        ensures
            r.deep_view() == self.deep_view(),
    {
        match self {
            ExtendedHeaderLine::OldMode(m) => ExtendedHeaderLine::OldMode(m.into_static()),
            ExtendedHeaderLine::NewMode(m) => ExtendedHeaderLine::NewMode(m.into_static()),
            ExtendedHeaderLine::DeletedFileMode(m) => ExtendedHeaderLine::DeletedFileMode(m.into_static()),
            ExtendedHeaderLine::NewFileMode(m) => ExtendedHeaderLine::NewFileMode(m.into_static()),
            ExtendedHeaderLine::CopyFrom(p) => ExtendedHeaderLine::CopyFrom(p.into_static()),
            ExtendedHeaderLine::CopyTo(p) => ExtendedHeaderLine::CopyTo(p.into_static()),
            ExtendedHeaderLine::RenameFrom(p) => ExtendedHeaderLine::RenameFrom(p.into_static()),
            ExtendedHeaderLine::RenameTo(p) => ExtendedHeaderLine::RenameTo(p.into_static()),
            ExtendedHeaderLine::SimilarityIndex(x) => ExtendedHeaderLine::SimilarityIndex(x),
            ExtendedHeaderLine::DissimilarityIndex(x) => ExtendedHeaderLine::DissimilarityIndex(x),
            ExtendedHeaderLine::Index(i) => ExtendedHeaderLine::Index(i.into_static()),
        }
    }
}

/// The number of extended header keywords.
pub const KEYWORD_COUNT: usize = 11;

/// The keywords of the extended header lines, in the order they are tried.
pub open spec fn spec_keyword(k: int) -> Seq<char> {
    if k == 0 {
        "old mode"@
    } else if k == 1 {
        "new mode"@
    } else if k == 2 {
        "deleted file mode"@
    } else if k == 3 {
        "new file mode"@
    } else if k == 4 {
        "copy from"@
    } else if k == 5 {
        "copy to"@
    } else if k == 6 {
        "rename from"@
    } else if k == 7 {
        "rename to"@
    } else if k == 8 {
        "similarity index"@
    } else if k == 9 {
        "dissimilarity index"@
    } else {
        "index"@
    }
}

fn keyword(k: usize) -> (r: &'static str)
    requires
        k < KEYWORD_COUNT,
    ensures
        r@ == spec_keyword(k as int),
{
    if k == 0 {
        "old mode"
    } else if k == 1 {
        "new mode"
    } else if k == 2 {
        "deleted file mode"
    } else if k == 3 {
        "new file mode"
    } else if k == 4 {
        "copy from"
    } else if k == 5 {
        "copy to"
    } else if k == 6 {
        "rename from"
    } else if k == 7 {
        "rename to"
    } else if k == 8 {
        "similarity index"
    } else if k == 9 {
        "dissimilarity index"
    } else {
        "index"
    }
}

/// The rest of `s` after the keyword `kw` and the whitespace that must follow it.
pub open spec fn keyword_rest(s: Seq<char>, kw: Seq<char>) -> Option<Seq<char>> {
    if starts_with(s, kw) && kw.len() < s.len() && is_ws(s[kw.len() as int]) {
        Some(trim_start(s.skip(kw.len() as int)))
    } else {
        None
    }
}

/// The first keyword, from the `k`-th on, that `s` starts with, and the rest of `s`.
pub open spec fn first_keyword(s: Seq<char>, k: int) -> Option<(int, Seq<char>)>
    decreases KEYWORD_COUNT - k,
{
    if k < 0 || k >= KEYWORD_COUNT {
        None
    } else {
        match keyword_rest(s, spec_keyword(k)) {
            Some(t) => Some((k, t)),
            None => first_keyword(s, k + 1),
        }
    }
}

/// The line of kind `k` whose value is the rest `t`.
pub open spec fn keyword_payload(k: int, t: Seq<char>) -> Result<Option<ExtendedHeaderLineView>, ParseError> {
    if k < 4 {
        match required(ModeParser.spec_parse_line(t)) {
            Err(e) => Err(e),
            Ok(m) => Ok(Some(
                if k == 0 {
                    ExtendedHeaderLineView::OldMode(m)
                } else if k == 1 {
                    ExtendedHeaderLineView::NewMode(m)
                } else if k == 2 {
                    ExtendedHeaderLineView::DeletedFileMode(m)
                } else {
                    ExtendedHeaderLineView::NewFileMode(m)
                },
            )),
        }
    } else if k < 8 {
        match required(PathParser.spec_parse_line(t)) {
            Err(e) => Err(e),
            Ok(p) => Ok(Some(
                if k == 4 {
                    ExtendedHeaderLineView::CopyFrom(p)
                } else if k == 5 {
                    ExtendedHeaderLineView::CopyTo(p)
                } else if k == 6 {
                    ExtendedHeaderLineView::RenameFrom(p)
                } else {
                    ExtendedHeaderLineView::RenameTo(p)
                },
            )),
        }
    } else if k < 10 {
        match required(PercentageParser.spec_parse_line(t)) {
            Err(e) => Err(e),
            Ok(x) => Ok(Some(
                if k == 8 {
                    ExtendedHeaderLineView::SimilarityIndex(x)
                } else {
                    ExtendedHeaderLineView::DissimilarityIndex(x)
                },
            )),
        }
    } else {
        match required(IndexLineParser.spec_parse_line(t)) {
            Err(e) => Err(e),
            Ok(i) => Ok(Some(ExtendedHeaderLineView::Index(i))),
        }
    }
}

/// What parsing the extended header line `s` yields.
pub open spec fn spec_extended_header_line(s: Seq<char>) -> Result<Option<ExtendedHeaderLineView>, ParseError> {
    match first_keyword(s, 0) {
        None => Ok(None),
        Some((k, t)) => keyword_payload(k, t),
    }
}

/// Where the value after the keyword `prefix` at `cs[from..]` begins, if
/// the line starts with the keyword followed by whitespace.
fn strip_extended_header_prefix(cs: &Vec<char>, from: usize, prefix: &str) -> (r: Option<usize>)
    requires
        from <= cs@.len(),
    ensures
        match keyword_rest(cs@.skip(from as int), prefix@) {
            Some(t) => r matches Some(at) && at <= cs@.len() && cs@.skip(at as int) == t,
            None => r is None,
        },
{
    let ghost s = cs@.skip(from as int);
    let len = cs.len();
    if !has_str_prefix_at(cs, from, prefix) {
        return None;
    }
    let plen = prefix.unicode_len();
    if from + plen >= len {
        return None;
    }
    assert(s[plen as int] == cs@[from + plen]);
    if !is_whitespace(cs[from + plen]) {
        return None;
    }
    let at = span(cs, from + plen, CharClass::Whitespace);
    assert(cs@.skip(from + plen) =~= s.skip(plen as int));
    Some(at)
}

/// Parses the value of a line of kind `k` at `cs[at..]`.
fn parse_keyword_payload(cs: &Vec<char>, at: usize, k: usize) -> (r: Result<Option<ExtendedHeaderLine>, ParseError>)
    requires
        at <= cs@.len(),
        k < KEYWORD_COUNT,
    ensures
        super::parser::line_parsed_as(r, keyword_payload(k as int, cs@.skip(at as int))),
{
    if k < 4 {
        let m = match ModeParser.parse_line_required_chars(cs, at) {
            Err(e) => return Err(e),
            Ok(m) => m,
        };
        let line = if k == 0 {
            ExtendedHeaderLine::OldMode(m)
        } else if k == 1 {
            ExtendedHeaderLine::NewMode(m)
        } else if k == 2 {
            ExtendedHeaderLine::DeletedFileMode(m)
        } else {
            ExtendedHeaderLine::NewFileMode(m)
        };
        Ok(Some(line))
    } else if k < 8 {
        let p = match PathParser.parse_line_required_chars(cs, at) {
            Err(e) => return Err(e),
            Ok(p) => p,
        };
        let line = if k == 4 {
            ExtendedHeaderLine::CopyFrom(p)
        } else if k == 5 {
            ExtendedHeaderLine::CopyTo(p)
        } else if k == 6 {
            ExtendedHeaderLine::RenameFrom(p)
        } else {
            ExtendedHeaderLine::RenameTo(p)
        };
        Ok(Some(line))
    } else if k < 10 {
        let x = match PercentageParser.parse_line_required_chars(cs, at) {
            Err(e) => return Err(e),
            Ok(x) => x,
        };
        let line = if k == 8 {
            ExtendedHeaderLine::SimilarityIndex(x)
        } else {
            ExtendedHeaderLine::DissimilarityIndex(x)
        };
        Ok(Some(line))
    } else {
        match IndexLineParser.parse_line_required_chars(cs, at) {
            Err(e) => Err(e),
            Ok(i) => Ok(Some(ExtendedHeaderLine::Index(i))),
        }
    }
}

/// Reads the extended header lines that follow `diff --git`: mode changes,
/// copies, renames, similarity and the index line.
#[derive(Debug, Default, Clone, Copy)]
pub struct ExtendedHeaderLineParser;

impl LineParser for ExtendedHeaderLineParser {
    type Output = ExtendedHeaderLine;

    open spec fn spec_parse_line(&self, s: Seq<char>) -> Result<Option<ExtendedHeaderLineView>, ParseError> {
        spec_extended_header_line(s)
    }

    fn parse_line_chars(&self, cs: &Vec<char>, from: usize) -> (r: Result<Option<ExtendedHeaderLine>, ParseError>) {
        let ghost s = cs@.skip(from as int);
        let mut k: usize = 0;
        while k < KEYWORD_COUNT
            invariant
                from <= cs@.len(),
                s == cs@.skip(from as int),
                k <= KEYWORD_COUNT,
                first_keyword(s, 0) == first_keyword(s, k as int),
            decreases KEYWORD_COUNT - k,
        {
            let kw = keyword(k);
            match strip_extended_header_prefix(cs, from, kw) {
                Some(at) => {
                    return parse_keyword_payload(cs, at, k);
                },
                None => {},
            }
            k += 1;
        }
        Ok(None)
    }
}

impl MultilineParser for ExtendedHeaderLineParser {
    type Output = ExtendedHeaderLine;

    open spec fn spec_parse_lines(&self, ls: Seq<Seq<char>>) -> Result<Option<(ExtendedHeaderLineView, nat)>, ParseError> {
        first_line(|s: Seq<char>| self.spec_parse_line(s), ls)
    }

    fn parse_lines_at(&self, lines: &[&str], from: usize) -> (r: Result<Option<(ExtendedHeaderLine, usize)>, ParseError>) {
        first_line_of(self, lines, from)
    }
}

} // verus!
