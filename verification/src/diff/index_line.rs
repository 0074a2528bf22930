use vstd::prelude::*;

use super::error::ParseError;
use super::hash::HashParser;
use super::mode::{Mode, ModeParser};
use super::parser::{
    lemma_chars_parsed_some, required, whole_line, whole_line_of, LineParser, Parser,
};
use crate::text::{has_str_prefix_at, span, span_len, starts_with, CharClass};

verus! {

/// The hashes (and mode) of an `index` extended header line.
///
/// Example: `7626a52..16399c7 100644`.
#[derive(Debug, PartialEq, Clone)]
pub struct IndexLine {
    pub old: crate::diff::hash::Hash,
    pub new: crate::diff::hash::Hash,
    pub mode: Option<Mode>,
}

/// The text of an index line's parts.
pub struct IndexLineView {
    pub old: Seq<char>,
    pub new: Seq<char>,
    pub mode: Option<Seq<char>>,
}

impl DeepView for IndexLine {
    type V = IndexLineView;

    open spec fn deep_view(&self) -> IndexLineView {
        IndexLineView {
            old: self.old.deep_view(),
            new: self.new.deep_view(),
            mode: match self.mode {
                Some(m) => Some(m.deep_view()),
                None => None,
            },
        }
    }
}

impl IndexLine {
    /// The same index line, owning its text.
    pub fn into_static(self) -> (r: Self)
        ensures
            r.deep_view() == self.deep_view(),
    {
        IndexLine {
            old: self.old.into_static(),
            new: self.new.into_static(),
            mode: match self.mode {
                Some(m) => Some(m.into_static()),
                None => None,
            },
        }
    }
}

/// Reads `<hash>..<hash>` optionally followed by whitespace and a mode.
#[derive(Debug, Default, Clone, Copy)]
pub struct IndexLineParser;

impl Parser for IndexLineParser {
    type Output = IndexLine;

    open spec fn spec_parse(&self, s: Seq<char>) -> Result<Option<(IndexLineView, nat)>, ParseError> {
        match HashParser.spec_parse(s) {
            Err(e) => Err(e),
            Ok(None) => Ok(None),
            Ok(Some((old, n1))) => if !starts_with(s.skip(n1 as int), ".."@) {
                Err(ParseError::MissingIndexSeparator)
            } else {
                let o2 = n1 + 2;
                match required(HashParser.spec_parse(s.skip(o2 as int))) {
                    Err(e) => Err(e),
                    Ok((new, n2)) => {
                        let o3 = o2 + n2;
                        let o4 = o3 + span_len(s.skip(o3 as int), CharClass::Whitespace);
                        if o4 >= s.len() {
                            Ok(Some((IndexLineView { old, new, mode: None }, o4)))
                        } else {
                            match required(ModeParser.spec_parse(s.skip(o4 as int))) {
                                Err(e) => Err(e),
                                Ok((m, n3)) => Ok(
                                    Some((IndexLineView { old, new, mode: Some(m) }, o4 + n3)),
                                ),
                            }
                        }
                    },
                }
            },
        }
    }

    #[verifier::rlimit(40)]
    fn parse_chars(&self, cs: &Vec<char>, from: usize) -> (r: Result<Option<(IndexLine, usize)>, ParseError>) {
        let ghost s = cs@.skip(from as int);
        let len = cs.len();
        let r1 = HashParser.parse_chars(cs, from);
        let (old, n1) = match r1 {
            Err(e) => return Err(e),
            Ok(None) => return Ok(None),
            Ok(Some(p)) => p,
        };
        proof {
            lemma_chars_parsed_some(r1, HashParser.spec_parse(s), s);
            assert(cs@.skip(from + n1) =~= s.skip(n1 as int));
        }
        if !has_str_prefix_at(cs, from + n1, "..") {
            return Err(ParseError::MissingIndexSeparator);
        }
        proof {
            reveal_strlit("..");
        }
        let a2 = from + n1 + 2;
        assert(cs@.skip(a2 as int) =~= s.skip(n1 + 2));
        let r2 = HashParser.parse_chars(cs, a2);
        let (new, n2) = match r2 {
            Err(e) => return Err(e),
            Ok(None) => return Err(ParseError::MissingRequired),
            Ok(Some(p)) => p,
        };
        proof {
            lemma_chars_parsed_some(r2, HashParser.spec_parse(s.skip(n1 + 2)), s.skip(n1 + 2));
        }
        let a3 = a2 + n2;
        let a4 = span(cs, a3, CharClass::Whitespace);
        assert(cs@.skip(a3 as int) =~= s.skip(a3 - from));
        if a4 >= len {
            let v = IndexLine { old, new, mode: None };
            assert(v.deep_view() == IndexLineView { old: old.deep_view(), new: new.deep_view(), mode: None });
            return Ok(Some((v, a4 - from)));
        }
        assert(cs@.skip(a4 as int) =~= s.skip(a4 - from));
        let r3 = ModeParser.parse_chars(cs, a4);
        match r3 {
            Err(e) => Err(e),
            Ok(None) => Err(ParseError::MissingRequired),
            Ok(Some((m, n3))) => {
                proof {
                    lemma_chars_parsed_some(r3, ModeParser.spec_parse(s.skip(a4 - from)), s.skip(a4 - from));
                }
                let v = IndexLine { old, new, mode: Some(m) };
                assert(v.deep_view() == IndexLineView { old: old.deep_view(), new: new.deep_view(), mode: Some(m.deep_view()) });
                Ok(Some((v, a4 - from + n3)))
            },
        }
    }
}

impl LineParser for IndexLineParser {
    type Output = IndexLine;

    open spec fn spec_parse_line(&self, s: Seq<char>) -> Result<Option<IndexLineView>, ParseError> {
        whole_line(self.spec_parse(s), s)
    }

    fn parse_line_chars(&self, cs: &Vec<char>, from: usize) -> (r: Result<Option<IndexLine>, ParseError>) {
        whole_line_of(self, cs, from)
    }
}

} // verus!
