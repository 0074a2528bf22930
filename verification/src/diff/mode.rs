use vstd::prelude::*;

use super::error::ParseError;
use super::parser::{chars_parsed_as, LineParser, Parser, whole_line, whole_line_of, line_parsed_as};
use crate::text::{span, span_len, string_of, CharClass};

verus! {

/// A git file mode.
///
/// Example: `100644` from an `old mode`, `new mode`, or `index` line is stored
/// as a `Mode`.
#[derive(Debug, PartialEq, Clone)]
pub struct Mode(pub String);

impl DeepView for Mode {
    type V = Seq<char>;

    open spec fn deep_view(&self) -> Seq<char> {
        self.0@
    }
}

impl Mode {
    /// A mode holding the characters of `mode`.
    pub fn borrowed(mode: &str) -> (r: Self)
        ensures
            r.deep_view() == mode@,
    {
        Mode(mode.to_owned())
    }

    /// A mode holding the string `mode`.
    pub fn owned(mode: String) -> (r: Self)
        ensures
            r.deep_view() == mode@,
    {
        Mode(mode)
    }

    /// The same mode, owning its text.
    pub fn into_static(self) -> (r: Self)
        ensures
            r.deep_view() == self.deep_view(),
    {
        Mode(self.0)
    }
}

/// Reads the longest run of octal digits; at least one is required.
#[derive(Debug, Default, Clone, Copy)]
pub struct ModeParser;

impl Parser for ModeParser {
    type Output = Mode;

    open spec fn spec_parse(&self, s: Seq<char>) -> Result<Option<(Seq<char>, nat)>, ParseError> {
        let n = span_len(s, CharClass::OctDigit);
        if n == 0 {
            Err(ParseError::NoMode)
        } else {
            Ok(Some((s.take(n as int), n)))
        }
    }

    fn parse_chars(&self, cs: &Vec<char>, from: usize) -> (r: Result<Option<(Mode, usize)>, ParseError>) {
        let end = span(cs, from, CharClass::OctDigit);
        if end == from {
            return Err(ParseError::NoMode);
        }
        proof {
            crate::text::lemma_span_len(cs@.skip(from as int), CharClass::OctDigit);
        }
        let h = string_of(cs, from, end);
        assert(end - from == span_len(cs@.skip(from as int), CharClass::OctDigit));
        assert(cs@.subrange(from as int, end as int) =~= cs@.skip(from as int).take(end - from));
        let ghost sp = self.spec_parse(cs@.skip(from as int));
        assert(sp == Ok::<Option<(Seq<char>, nat)>, ParseError>(Some((cs@.skip(from as int).take(end - from), (end - from) as nat))));
        let r = Ok(Some((Mode(h), end - from)));
        assert(chars_parsed_as(r, sp, cs@.skip(from as int)));
        r
    }
}

impl LineParser for ModeParser {
    type Output = Mode;

    open spec fn spec_parse_line(&self, s: Seq<char>) -> Result<Option<Seq<char>>, ParseError> {
        whole_line(self.spec_parse(s), s)
    }

    fn parse_line_chars(&self, cs: &Vec<char>, from: usize) -> (r: Result<Option<Mode>, ParseError>) {
        whole_line_of(self, cs, from)
    }
}

} // verus!
