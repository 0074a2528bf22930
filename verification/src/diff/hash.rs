use vstd::prelude::*;

use super::error::ParseError;
use super::parser::{chars_parsed_as, LineParser, Parser, whole_line, whole_line_of, line_parsed_as};
use crate::text::{span, span_len, string_of, CharClass};

verus! {

/// A blob hash from an index line.
///
/// Example: `7626a52` from `index 7626a52..16399c7` is stored as a `Hash`.
#[derive(Debug, PartialEq, Clone)]
pub struct Hash(pub String);

impl DeepView for Hash {
    type V = Seq<char>;

    open spec fn deep_view(&self) -> Seq<char> {
        self.0@
    }
}

impl Hash {
    /// A hash holding the characters of `hash`.
    pub fn borrowed(hash: &str) -> (r: Self)
        ensures
            r.deep_view() == hash@,
    {
        Hash(hash.to_owned())
    }

    /// A hash holding the string `hash`.
    pub fn owned(hash: String) -> (r: Self)
        ensures
            r.deep_view() == hash@,
    {
        Hash(hash)
    }

    /// The same hash, owning its text.
    pub fn into_static(self) -> (r: Self)
        ensures
            r.deep_view() == self.deep_view(),
    {
        Hash(self.0)
    }
}

/// Reads the longest run of hexadecimal digits; at least one is required.
#[derive(Debug, Default, Clone, Copy)]
pub struct HashParser;

impl Parser for HashParser {
    type Output = Hash;

    open spec fn spec_parse(&self, s: Seq<char>) -> Result<Option<(Seq<char>, nat)>, ParseError> {
        let n = span_len(s, CharClass::HexDigit);
        if n == 0 {
            Err(ParseError::NoHash)
        } else {
            Ok(Some((s.take(n as int), n)))
        }
    }

    fn parse_chars(&self, cs: &Vec<char>, from: usize) -> (r: Result<Option<(Hash, usize)>, ParseError>) {
        let end = span(cs, from, CharClass::HexDigit);
        if end == from {
            return Err(ParseError::NoHash);
        }
        proof {
            crate::text::lemma_span_len(cs@.skip(from as int), CharClass::HexDigit);
        }
        let h = string_of(cs, from, end);
        assert(end - from == span_len(cs@.skip(from as int), CharClass::HexDigit));
        assert(cs@.subrange(from as int, end as int) =~= cs@.skip(from as int).take(end - from));
        let ghost sp = self.spec_parse(cs@.skip(from as int));
        assert(sp == Ok::<Option<(Seq<char>, nat)>, ParseError>(Some((cs@.skip(from as int).take(end - from), (end - from) as nat))));
        let r = Ok(Some((Hash(h), end - from)));
        assert(chars_parsed_as(r, sp, cs@.skip(from as int)));
        r
    }
}

impl LineParser for HashParser {
    type Output = Hash;

    open spec fn spec_parse_line(&self, s: Seq<char>) -> Result<Option<Seq<char>>, ParseError> {
        whole_line(self.spec_parse(s), s)
    }

    fn parse_line_chars(&self, cs: &Vec<char>, from: usize) -> (r: Result<Option<Hash>, ParseError>) {
        whole_line_of(self, cs, from)
    }
}

} // verus!
