use vstd::prelude::*;

use super::error::ParseError;
use super::parser::{LineParser, Parser, whole_line, whole_line_of};
use crate::text::{digits_value, span, span_len, CharClass};

verus! {

/// A percentage from a similarity or dissimilarity index.
///
/// Example: `93%` is stored as `Percentage(93)`.
#[derive(Debug, PartialEq, Clone, Copy)]
pub struct Percentage(pub u8);

impl DeepView for Percentage {
    type V = u8;

    open spec fn deep_view(&self) -> u8 {
        self.0
    }
}

/// Reads decimal digits followed by `%`; the value must be at most 100.
#[derive(Debug, Default, Clone, Copy)]
pub struct PercentageParser;

/// The value of the digits in `cs[from..to]`, capped at 256.
fn capped_value(cs: &Vec<char>, from: usize, to: usize) -> (v: u64)
    requires
        from <= to <= cs@.len(),
        forall|j: int| from <= j < to ==> crate::text::is_ascii_digit(#[trigger] cs@[j]),
    ensures
        v == if digits_value(cs@.subrange(from as int, to as int)) >= 256 {
            256
        } else {
            digits_value(cs@.subrange(from as int, to as int))
        },
{
    let mut v: u64 = 0;
    let mut i = from;
    while i < to
        invariant
            from <= i <= to <= cs@.len(),
            forall|j: int| from <= j < to ==> crate::text::is_ascii_digit(#[trigger] cs@[j]),
            v == if digits_value(cs@.subrange(from as int, i as int)) >= 256 {
                256
            } else {
                digits_value(cs@.subrange(from as int, i as int))
            },
        decreases to - i,
    {
        let c = cs[i];
        let d = (c as u32 - '0' as u32) as u64;
        assert(cs@.subrange(from as int, i + 1).drop_last() =~= cs@.subrange(from as int, i as int));
        assert(cs@.subrange(from as int, i + 1).last() == c);
        if v >= 256 {
            v = 256;
        } else {
            v = v * 10 + d;
            if v >= 256 {
                v = 256;
            }
        }
        i += 1;
    }
    v
}

impl Parser for PercentageParser {
    type Output = Percentage;

    open spec fn spec_parse(&self, s: Seq<char>) -> Result<Option<(u8, nat)>, ParseError> {
        let n = span_len(s, CharClass::AsciiDigit);
        let v = digits_value(s.take(n as int));
        if n == 0 {
            Err(ParseError::NoPercentage)
        } else if v > 255 {
            Err(ParseError::InvalidNumber)
        } else if v > 100 {
            Err(ParseError::PercentageExceeds100)
        } else if n < s.len() && s[n as int] == '%' {
            Ok(Some((v as u8, n + 1)))
        } else {
            Err(ParseError::MissingPercentSign)
        }
    }

    fn parse_chars(&self, cs: &Vec<char>, from: usize) -> (r: Result<Option<(Percentage, usize)>, ParseError>) {
        let ghost s = cs@.skip(from as int);
        let end = span(cs, from, CharClass::AsciiDigit);
        proof {
            crate::text::lemma_span_len(s, CharClass::AsciiDigit);
            assert forall|j: int| from <= j < end implies crate::text::is_ascii_digit(#[trigger] cs@[j]) by {
                assert(cs@[j] == s[j - from]);
            }
            assert(cs@.subrange(from as int, end as int) =~= s.take(end - from));
        }
        if end == from {
            return Err(ParseError::NoPercentage);
        }
        let v = capped_value(cs, from, end);
        if v > 255 {
            return Err(ParseError::InvalidNumber);
        }
        if v > 100 {
            return Err(ParseError::PercentageExceeds100);
        }
        if end < cs.len() && cs[end] == '%' {
            assert(s[end - from] == cs@[end as int]);
            let p = Percentage(v as u8);
            assert(p.deep_view() == digits_value(s.take(span_len(s, CharClass::AsciiDigit) as int)) as u8);
            Ok(Some((p, end - from + 1)))
        } else {
            proof {
                if end < cs@.len() {
                    assert(s[end - from] == cs@[end as int]);
                }
            }
            Err(ParseError::MissingPercentSign)
        }
    }
}

impl LineParser for PercentageParser {
    type Output = Percentage;

    open spec fn spec_parse_line(&self, s: Seq<char>) -> Result<Option<u8>, ParseError> {
        whole_line(self.spec_parse(s), s)
    }

    fn parse_line_chars(&self, cs: &Vec<char>, from: usize) -> (r: Result<Option<Percentage>, ParseError>) {
        whole_line_of(self, cs, from)
    }
}

} // verus!
