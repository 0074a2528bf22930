use vstd::prelude::*;

use super::diff_file::{DiffFile, DiffFileParser, DiffFileView};
use super::error::ParseError;
use super::parser::{line_views, parse_lines_many_at, spec_many, views_of, MultilineParser};
use crate::text::{is_blank, is_blank_str};

verus! {

/// A parsed diff: its files in order.
#[derive(Debug, PartialEq)]
pub struct Diff {
    pub files: Vec<DiffFile>,
}

/// The files of a diff.
pub struct DiffView {
    pub files: Seq<DiffFileView>,
}

impl DeepView for Diff {
    type V = DiffView;

    open spec fn deep_view(&self) -> DiffView {
        DiffView { files: views_of(self.files@) }
    }
}

impl Diff {
    /// The same diff, owning its text.
    pub fn into_static(self) -> (r: Self)
        ensures
            r.deep_view() == self.deep_view(),
    {
        Diff { files: self.files }
    }
}

/// Reads the files of a diff for as long as they come; it always succeeds
/// unless a file is malformed.
pub struct DiffParser;

impl MultilineParser for DiffParser {
    type Output = Diff;

    open spec fn spec_parse_lines(&self, ls: Seq<Seq<char>>) -> Result<Option<(DiffView, nat)>, ParseError> {
        match spec_many(&DiffFileParser, ls) {
            Err(e) => Err(e),
            Ok((files, n)) => Ok(Some((DiffView { files }, n))),
        }
    }

    fn parse_lines_at(&self, lines: &[&str], from: usize) -> (r: Result<Option<(Diff, usize)>, ParseError>) {
        match parse_lines_many_at(&DiffFileParser, lines, from) {
            Err(e) => Err(e),
            Ok((files, n)) => {
                let d = Diff { files };
                assert(d.deep_view() == DiffView { files: views_of(files@) });
                Ok(Some((d, n)))
            },
        }
    }
}

/// What parsing the lines of a complete diff yields: the files read, and
/// only blank lines after them.
pub open spec fn spec_parse_diff(ls: Seq<Seq<char>>) -> Result<DiffView, ParseError> {
    match spec_many(&DiffFileParser, ls) {
        Err(e) => Err(e),
        Ok((files, n)) => if forall|j: int| n <= j < ls.len() ==> is_blank(#[trigger] ls[j]) {
            Ok(DiffView { files })
        } else {
            Err(ParseError::TrailingContentInDiff)
        },
    }
}

/// Parses the lines of a complete diff; anything but blank lines after the
/// last file is an error.
pub fn parse(lines: &[&str]) -> (r: Result<Diff, ParseError>)
    ensures
        match spec_parse_diff(line_views(lines@)) {
            Ok(v) => r matches Ok(d) && d.deep_view() == v,
            Err(e) => r == Err::<Diff, ParseError>(e),
        },
{
    let ghost ls = line_views(lines@);
    assert(ls.skip(0) =~= ls);
    let (result, n) = match DiffParser.parse_lines_at(lines, 0) {
        Err(e) => return Err(e),
        Ok(None) => return Err(ParseError::MissingRequired),
        Ok(Some(x)) => x,
    };
    let total = lines.len();
    let mut i = n;
    while i < total
        invariant
            n <= i <= total == lines@.len(),
            ls == line_views(lines@),
            spec_many(&DiffFileParser, ls) is Ok,
            spec_many(&DiffFileParser, ls)->Ok_0.1 == n,
            forall|j: int| n <= j < i ==> is_blank(#[trigger] ls[j]),
        decreases total - i,
    {
        let line: &str = lines[i];
        assert(ls[i as int] == line@);
        if !is_blank_str(line) {
            assert(!is_blank(ls[i as int]));
            return Err(ParseError::TrailingContentInDiff);
        }
        i += 1;
    }
    Ok(result)
}

/// Reads the output lines of `git diff` and keeps nothing of them; the
/// parsers of this module are what reads a diff.
pub fn parse_diff_output(_lines: &[String]) {
}

} // verus!
