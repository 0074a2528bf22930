use vstd::prelude::*;

use super::error::ParseError;
use super::parser::{first_line, first_line_of, line_parsed_as, line_views, lines_parsed_as, LineParser, MultilineParser};
use super::utils::AtLeastOne;
use crate::text::{string_of};

verus! {

/// How a line of a chunk relates to one parent of the diff.
#[derive(Debug, PartialEq, Eq, Structural, Clone, Copy)]
pub enum DiffLineStatus {
    Added,
    Removed,
    Unchanged,
}

/// A line of a chunk: its status against each parent and its text.
#[derive(Debug, PartialEq, Clone)]
pub struct DiffLine {
    pub from_status: AtLeastOne<DiffLineStatus>,
    pub content: String,
}

/// The statuses and text of a diff line.
pub struct DiffLineView {
    pub from_status: Seq<DiffLineStatus>,
    pub content: Seq<char>,
}

impl DeepView for DiffLine {
    type V = DiffLineView;

    open spec fn deep_view(&self) -> DiffLineView {
        DiffLineView { from_status: self.from_status.items(), content: self.content@ }
    }
}

impl DiffLine {
    /// The line with the given statuses and text.
    pub fn new(from_status: AtLeastOne<DiffLineStatus>, content: String) -> (r: Self)
        ensures
            r.deep_view() == (DiffLineView { from_status: from_status.items(), content: content@ }),
    {
        DiffLine { from_status, content }
    }

    /// The status of the line against each parent.
    pub fn from_status(&self) -> (r: &AtLeastOne<DiffLineStatus>)
        ensures
            r.items() == self.deep_view().from_status,
    {
        &self.from_status
    }

    /// The text of the line, without its status markers.
    pub fn content(&self) -> (r: &str)
        ensures
            r@ == self.deep_view().content,
    {
        self.content.as_str()
    }

    /// The same line, owning its text.
    pub fn into_static(self) -> (r: Self)
        ensures
            r.deep_view() == self.deep_view(),
    {
        DiffLine { from_status: self.from_status, content: self.content }
    }
}

/// The status that a marker character stands for.
pub open spec fn marker_status(c: char) -> Option<DiffLineStatus> {
    if c == '+' {
        Some(DiffLineStatus::Added)
    } else if c == '-' {
        Some(DiffLineStatus::Removed)
    } else if c == ' ' {
        Some(DiffLineStatus::Unchanged)
    } else {
        None
    }
}

/// The number of marker characters a line of `len` characters has, one per parent.
pub open spec fn marker_count(parents: nat, len: nat) -> nat {
    if parents < len {
        parents
    } else {
        len
    }
}

/// What parsing `s` as a chunk line of a diff with `parents` parents
/// yields: one status per parent from the leading markers (missing markers
/// count as unchanged) and the text after the markers.
pub open spec fn spec_diff_line(parents: nat, s: Seq<char>) -> Result<Option<DiffLineView>, ParseError> {
    let k = marker_count(parents, s.len());
    if parents == 0 {
        Ok(None)
    } else if exists|j: int| 0 <= j < k && (#[trigger] marker_status(s[j])) is None {
        Ok(None)
    } else {
        Ok(Some(DiffLineView {
            from_status: Seq::new(parents, |j: int| if j < k {
                marker_status(s[j])->Some_0
            } else {
                DiffLineStatus::Unchanged
            }),
            content: if parents <= s.len() {
                s.skip(parents as int)
            } else {
                seq![]
            },
        }))
    }
}

/// Reads a line of a chunk, given the number of parents of the diff.
pub struct DiffLineParser {
    pub number_of_parents: usize,
}

impl DiffLineParser {
    /// The parser for a diff with `number_of_parents` parents.
    pub fn new(number_of_parents: usize) -> (r: Self)
        ensures
            r.number_of_parents == number_of_parents,
    {
        DiffLineParser { number_of_parents }
    }
}

impl LineParser for DiffLineParser {
    type Output = DiffLine;

    open spec fn spec_parse_line(&self, s: Seq<char>) -> Result<Option<DiffLineView>, ParseError> {
        spec_diff_line(self.number_of_parents as nat, s)
    }

    fn parse_line_chars(&self, cs: &Vec<char>, from: usize) -> (r: Result<Option<DiffLine>, ParseError>) {
        let ghost s = cs@.skip(from as int);
        let n = self.number_of_parents;
        let len = cs.len();
        if n == 0 {
            return Ok(None);
        }
        let avail = len - from;
        let k = if n < avail {
            n
        } else {
            avail
        };
        let mut statuses: Vec<DiffLineStatus> = Vec::new();
        let mut i: usize = 0;
        while i < k
            invariant
                i <= k <= n,
                k == marker_count(n as nat, s.len()),
                s == cs@.skip(from as int),
                from + k <= cs@.len(),
                len == cs@.len(),
                n == self.number_of_parents,
                statuses@.len() == i,
                forall|j: int| 0 <= j < i ==> (#[trigger] marker_status(s[j])) is Some
                    && statuses@[j] == marker_status(s[j])->Some_0,
            decreases k - i,
        {
            let c = cs[from + i];
            assert(s[i as int] == c);
            let st = if c == '+' {
                DiffLineStatus::Added
            } else if c == '-' {
                DiffLineStatus::Removed
            } else if c == ' ' {
                DiffLineStatus::Unchanged
            } else {
                assert(marker_status(s[i as int]) is None);
                return Ok(None);
            };
            statuses.push(st);
            i += 1;
        }
        while i < n
            invariant
                k <= i <= n,
                k == marker_count(n as nat, s.len()),
                s == cs@.skip(from as int),
                statuses@.len() == i,
                forall|j: int| 0 <= j < k ==> (#[trigger] marker_status(s[j])) is Some
                    && statuses@[j] == marker_status(s[j])->Some_0,
                forall|j: int| k <= j < i ==> statuses@[j] == DiffLineStatus::Unchanged,
            decreases n - i,
        {
            statuses.push(DiffLineStatus::Unchanged);
            i += 1;
        }
        let content = if n <= avail {
            let t = string_of(cs, from + n, len);
            assert(cs@.subrange(from + n, len as int) =~= s.skip(n as int));
            t
        } else {
            String::new()
        };
        let ghost want = Seq::new(n as nat, |j: int| if j < k {
            marker_status(s[j])->Some_0
        } else {
            DiffLineStatus::Unchanged
        });
        assert(statuses@ =~= want);
        let from_status = match AtLeastOne::try_from_vec(statuses) {
            Ok(x) => x,
            Err(e) => return Err(e),
        };
        let line = DiffLine { from_status, content };
        assert(line.deep_view().from_status == want);
        Ok(Some(line))
    }
}

impl MultilineParser for DiffLineParser {
    type Output = DiffLine;

    open spec fn spec_parse_lines(&self, ls: Seq<Seq<char>>) -> Result<Option<(DiffLineView, nat)>, ParseError> {
        first_line(|s: Seq<char>| self.spec_parse_line(s), ls)
    }

    fn parse_lines_at(&self, lines: &[&str], from: usize) -> (r: Result<Option<(DiffLine, usize)>, ParseError>) {
        first_line_of(self, lines, from)
    }
}

} // verus!
