use std::ops::Range;

use vstd::prelude::*;

use super::error::ParseError;
use super::parser::{first_line, first_line_of, LineParser, MultilineParser};
use super::utils::AtLeastOne;
use crate::number::lemma_decimal_digits;
use crate::text::{
    decimal, decimal_value, digits_value, has_prefix_at, in_class, is_ascii_digit, lemma_span_len_exact, span,
    span_len, starts_with, sub_chars, trim_start, CharClass,
};

verus! {

/// The line ranges of a chunk header: one per parent, then the new file's.
///
/// Example: `@@ -161,7 +161,7 @@` has the ranges `161..168` and `161..168`.
#[derive(Debug, PartialEq)]
pub struct ChunkHeader {
    pub from_ranges: AtLeastOne<Range<usize>>,
    pub to_range: Range<usize>,
}

/// The bounds of a range.
pub open spec fn range_view(r: Range<usize>) -> (int, int) {
    (r.start as int, r.end as int)
}

/// The bounds of each range.
pub open spec fn ranges_view(rs: Seq<Range<usize>>) -> Seq<(int, int)> {
    rs.map_values(|r: Range<usize>| range_view(r))
}

/// The ranges of a chunk header as pairs of bounds.
pub struct ChunkHeaderView {
    pub from_ranges: Seq<(int, int)>,
    pub to_range: (int, int),
}

impl DeepView for ChunkHeader {
    type V = ChunkHeaderView;

    open spec fn deep_view(&self) -> ChunkHeaderView {
        ChunkHeaderView {
            from_ranges: ranges_view(self.from_ranges.items()),
            to_range: range_view(self.to_range),
        }
    }
}

/// One `<sign><start>,<length>` range after optional whitespace: its start,
/// its length and the rest of the line.
pub open spec fn spec_range(t: Seq<char>, sign: char) -> Result<(nat, nat, Seq<char>), ParseError> {
    let u = trim_start(t);
    if !(u.len() > 0 && u[0] == sign) {
        Err(ParseError::ExpectedRangePrefix)
    } else {
        let v = u.skip(1);
        let d1 = span_len(v, CharClass::AsciiDigit);
        if d1 == 0 {
            Err(ParseError::ExpectedRangeStart)
        } else {
            let w = v.skip(d1 as int);
            if !(w.len() > 0 && w[0] == ',') {
                Err(ParseError::ExpectedRangeSeparator)
            } else {
                let x = w.skip(1);
                let d2 = span_len(x, CharClass::AsciiDigit);
                if d2 == 0 {
                    Err(ParseError::ExpectedRangeLength)
                } else {
                    Ok((digits_value(v.take(d1 as int)), digits_value(x.take(d2 as int)), x.skip(d2 as int)))
                }
            }
        }
    }
}

/// The sign of the `i`-th of `count` ranges: `-` for each parent, `+` for the last.
pub open spec fn range_sign(i: int, count: int) -> char {
    if i + 1 != count {
        '-'
    } else {
        '+'
    }
}

/// The ranges `i..count` at the start of `t`, as `(start, end)` pairs, and
/// the rest of the line.
pub open spec fn spec_ranges(t: Seq<char>, i: int, count: int) -> Result<(Seq<(int, int)>, Seq<char>), ParseError>
    decreases count - i,
{
    if i >= count {
        Ok((seq![], t))
    } else {
        match spec_range(t, range_sign(i, count)) {
            Err(e) => Err(e),
            Ok((start, len, rest)) => if start + len > usize::MAX {
                Err(ParseError::RangeOutOfBounds)
            } else {
                match spec_ranges(rest, i + 1, count) {
                    Err(e) => Err(e),
                    Ok((rs, r2)) => Ok((seq![(start as int, (start + len) as int)] + rs, r2)),
                }
            },
        }
    }
}

/// What parsing the chunk header line `s` yields. `@` repeated once per
/// file opens the line; the same run closes the ranges.
pub open spec fn spec_chunk_header(s: Seq<char>) -> Result<Option<ChunkHeaderView>, ParseError> {
    if !(s.len() > 0 && s[0] == '@') {
        Ok(None)
    } else {
        let p = span_len(s, CharClass::At);
        match spec_ranges(s.skip(p as int), 0, p as int) {
            Err(e) => Err(e),
            Ok((rs, rest)) => if !starts_with(trim_start(rest), s.take(p as int)) {
                Err(ParseError::ExpectedChunkSuffix)
            } else if p < 2 {
                Err(ParseError::EmptyList)
            } else {
                Ok(Some(ChunkHeaderView { from_ranges: rs.drop_last(), to_range: rs.last() }))
            },
        }
    }
}

/// Reads one range at `cs[at..]`, see [`spec_range`].
fn parse_range(cs: &Vec<char>, at: usize, sign: char) -> (r: Result<(usize, usize, usize), ParseError>)
    requires
        at <= cs@.len(),
    ensures
        match spec_range(cs@.skip(at as int), sign) {
            Ok((start, len, rest)) => if start + len <= usize::MAX {
                r matches Ok((a, b, k)) && a == start && a + b == start + len && k <= cs@.len()
                    && cs@.skip(k as int) == rest
            } else {
                r == Err::<(usize, usize, usize), ParseError>(ParseError::RangeOutOfBounds)
            },
            Err(e) => r == Err::<(usize, usize, usize), ParseError>(e),
        },
{
    let ghost t = cs@.skip(at as int);
    let len = cs.len();
    let a1 = span(cs, at, CharClass::Whitespace);
    assert(cs@.skip(a1 as int) =~= trim_start(t));
    let ghost u = trim_start(t);
    if a1 == len || cs[a1] != sign {
        return Err(ParseError::ExpectedRangePrefix);
    }
    assert(u[0] == cs@[a1 as int]);
    let ghost v = u.skip(1);
    assert(cs@.skip(a1 + 1) =~= v);
    let a2 = span(cs, a1 + 1, CharClass::AsciiDigit);
    if a2 == a1 + 1 {
        return Err(ParseError::ExpectedRangeStart);
    }
    proof {
        crate::text::lemma_span_len(v, CharClass::AsciiDigit);
        assert forall|j: int| a1 + 1 <= j < a2 implies is_ascii_digit(#[trigger] cs@[j]) by {
            assert(cs@[j] == v[j - a1 - 1]);
        }
        assert(cs@.subrange(a1 + 1, a2 as int) =~= v.take(a2 - a1 - 1));
    }
    let ghost w = v.skip(a2 - a1 - 1);
    assert(cs@.skip(a2 as int) =~= w);
    if a2 == len || cs[a2] != ',' {
        return Err(ParseError::ExpectedRangeSeparator);
    }
    assert(w[0] == cs@[a2 as int]);
    let ghost x = w.skip(1);
    assert(cs@.skip(a2 + 1) =~= x);
    let a3 = span(cs, a2 + 1, CharClass::AsciiDigit);
    if a3 == a2 + 1 {
        return Err(ParseError::ExpectedRangeLength);
    }
    proof {
        crate::text::lemma_span_len(x, CharClass::AsciiDigit);
        assert forall|j: int| a2 + 1 <= j < a3 implies is_ascii_digit(#[trigger] cs@[j]) by {
            assert(cs@[j] == x[j - a2 - 1]);
        }
        assert(cs@.subrange(a2 + 1, a3 as int) =~= x.take(a3 - a2 - 1));
    }
    assert(cs@.skip(a3 as int) =~= x.skip(a3 - a2 - 1));
    let start = match decimal_value(cs, a1 + 1, a2) {
        Some(v) => v,
        None => return Err(ParseError::RangeOutOfBounds),
    };
    let count = match decimal_value(cs, a2 + 1, a3) {
        Some(v) => v,
        None => return Err(ParseError::RangeOutOfBounds),
    };
    if count > usize::MAX - start {
        return Err(ParseError::RangeOutOfBounds);
    }
    Ok((start, count, a3))
}

/// Reads the chunk header line that opens each chunk, `@@ -<start>,<len> +<start>,<len> @@`.
pub struct ChunkHeaderParser;

impl LineParser for ChunkHeaderParser {
    type Output = ChunkHeader;

    open spec fn spec_parse_line(&self, s: Seq<char>) -> Result<Option<ChunkHeaderView>, ParseError> {
        spec_chunk_header(s)
    }

    #[verifier::rlimit(30)]
    fn parse_line_chars(&self, cs: &Vec<char>, from: usize) -> (r: Result<Option<ChunkHeader>, ParseError>) {
        let ghost s = cs@.skip(from as int);
        let len = cs.len();
        if from == len || cs[from] != '@' {
            return Ok(None);
        }
        assert(s[0] == cs@[from as int]);
        let p_end = span(cs, from, CharClass::At);
        proof {
            crate::text::lemma_span_len(s, CharClass::At);
        }
        let p = p_end - from;
        let ghost t0 = s.skip(p as int);
        assert(cs@.skip(p_end as int) =~= t0);
        let mut from_ranges: Vec<Range<usize>> = Vec::new();
        let mut to_range: Option<Range<usize>> = None;
        let mut at = p_end;
        let mut i: usize = 0;
        while i < p
            invariant
                i <= p,
                at <= cs@.len(),
                from <= cs@.len(),
                s == cs@.skip(from as int),
                s.len() > 0 && s[0] == '@',
                p == span_len(s, CharClass::At),
                t0 == s.skip(p as int),
                from_ranges@.len() == if i == p { (p - 1) as int } else { i as int },
                i < p ==> to_range is None,
                spec_ranges(t0, 0, p as int) is Ok ==> (spec_ranges(cs@.skip(at as int), i as int, p as int) is Ok
                    && spec_ranges(t0, 0, p as int)->Ok_0.1 == spec_ranges(cs@.skip(at as int), i as int, p as int)->Ok_0.1
                    && spec_ranges(t0, 0, p as int)->Ok_0.0 == if i == p {
                        ranges_view(from_ranges@).push(range_view(to_range->Some_0))
                    } else {
                        ranges_view(from_ranges@)
                    } + spec_ranges(cs@.skip(at as int), i as int, p as int)->Ok_0.0),
                spec_ranges(t0, 0, p as int) is Err ==> spec_ranges(t0, 0, p as int) == spec_ranges(cs@.skip(at as int), i as int, p as int),
                i == p ==> to_range is Some,
            decreases p - i,
        {
            let is_parent = i + 1 != p;
            let sign = if is_parent {
                '-'
            } else {
                '+'
            };
            let ghost cur = cs@.skip(at as int);
            let r = parse_range(cs, at, sign);
            let (start, count, next) = match r {
                Err(e) => {
                    assert(spec_ranges(cur, i as int, p as int) == Err::<(Seq<(int, int)>, Seq<char>), ParseError>(e));
                    return Err(e);
                },
                Ok(x) => x,
            };
            let ghost before = from_ranges@;
            let range = start..start + count;
            assert(range_view(range) == (start as int, start + count));
            if is_parent {
                from_ranges.push(range);
                assert(ranges_view(from_ranges@) =~= ranges_view(before).push(range_view(range)));
            } else {
                to_range = Some(range);
            }
            proof {
                let sr = spec_ranges(cur, i as int, p as int);
                if spec_ranges(t0, 0, p as int) is Ok {
                    let rest = spec_ranges(cs@.skip(next as int), i + 1, p as int);
                    assert(sr->Ok_0.0 == seq![range_view(range)] + rest->Ok_0.0);
                    if is_parent {
                        assert(ranges_view(before) + (seq![range_view(range)] + rest->Ok_0.0) =~= ranges_view(from_ranges@) + rest->Ok_0.0);
                    } else {
                        assert(rest->Ok_0.0 =~= seq![]);
                        assert(ranges_view(before) + (seq![range_view(range)] + rest->Ok_0.0) =~= ranges_view(from_ranges@).push(range_view(range)) + rest->Ok_0.0);
                    }
                }
            }
            at = next;
            i += 1;
        }
        let ghost sr = spec_ranges(cs@.skip(at as int), p as int, p as int);
        assert(sr == Ok::<(Seq<(int, int)>, Seq<char>), ParseError>((seq![], cs@.skip(at as int))));
        assert(spec_ranges(t0, 0, p as int) is Ok);
        assert(spec_ranges(t0, 0, p as int)->Ok_0.1 == cs@.skip(at as int));
        let a = span(cs, at, CharClass::Whitespace);
        assert(cs@.skip(a as int) =~= trim_start(cs@.skip(at as int)));
        let marker = sub_chars(cs, from, p_end);
        assert(marker@ =~= s.take(p as int));
        if !has_prefix_at(cs, a, &marker) {
            return Err(ParseError::ExpectedChunkSuffix);
        }
        let from_ranges = match AtLeastOne::try_from_vec(from_ranges) {
            Ok(x) => x,
            Err(e) => return Err(e),
        };
        let to_range = match to_range {
            Some(x) => x,
            None => return Err(ParseError::MissingToRange),
        };
        let h = ChunkHeader { from_ranges, to_range };
        proof {
            let rs = spec_ranges(t0, 0, p as int)->Ok_0.0;
            assert(rs =~= ranges_view(h.from_ranges.items()).push(range_view(h.to_range)));
            assert(rs.drop_last() =~= ranges_view(h.from_ranges.items()));
            assert(rs.last() == range_view(h.to_range));
            assert(p >= 2);
            assert(spec_chunk_header(s) == Ok::<Option<ChunkHeaderView>, ParseError>(Some(ChunkHeaderView { from_ranges: rs.drop_last(), to_range: rs.last() })));
            assert(h.deep_view() == ChunkHeaderView { from_ranges: rs.drop_last(), to_range: rs.last() });
        }
        Ok(Some(h))
    }
}

impl MultilineParser for ChunkHeaderParser {
    type Output = ChunkHeader;

    open spec fn spec_parse_lines(&self, ls: Seq<Seq<char>>) -> Result<Option<(ChunkHeaderView, nat)>, ParseError> {
        first_line(|s: Seq<char>| self.spec_parse_line(s), ls)
    }

    fn parse_lines_at(&self, lines: &[&str], from: usize) -> (r: Result<Option<(ChunkHeader, usize)>, ParseError>) {
        first_line_of(self, lines, from)
    }
}

/// A range `<sign><start>,<length>` after a space, followed by `tail`
/// (which starts with a space), reads as its start, its length and `tail`.
pub proof fn lemma_range_reads_back(sign: char, a: nat, m: nat, tail: Seq<char>)
    requires
        sign == '-' || sign == '+',
        tail.len() > 0,
        tail[0] == ' ',
    ensures
        spec_range(seq![' ', sign] + decimal(a) + seq![','] + decimal(m) + tail, sign) == Ok::<
            (nat, nat, Seq<char>),
            ParseError,
        >((a, m, tail)),
{
    lemma_decimal_digits(a);
    lemma_decimal_digits(m);
    let da = decimal(a);
    let dm = decimal(m);
    let t = seq![' ', sign] + da + seq![','] + dm + tail;
    lemma_span_len_exact(t, CharClass::Whitespace, 1);
    let u = t.skip(1);
    assert(u =~= seq![sign] + da + seq![','] + dm + tail);
    let v = u.skip(1);
    assert(v =~= da + seq![','] + dm + tail);
    assert forall|j: int| 0 <= j < da.len() implies in_class(CharClass::AsciiDigit, #[trigger] v[j]) by {
        assert(v[j] == da[j]);
    }
    assert(v[da.len() as int] == ',');
    lemma_span_len_exact(v, CharClass::AsciiDigit, da.len() as int);
    assert(v.take(da.len() as int) =~= da);
    let w = v.skip(da.len() as int);
    assert(w =~= seq![','] + dm + tail);
    let x = w.skip(1);
    assert(x =~= dm + tail);
    assert forall|j: int| 0 <= j < dm.len() implies in_class(CharClass::AsciiDigit, #[trigger] x[j]) by {
        assert(x[j] == dm[j]);
    }
    assert(x[dm.len() as int] == ' ');
    lemma_span_len_exact(x, CharClass::AsciiDigit, dm.len() as int);
    assert(x.take(dm.len() as int) =~= dm);
    assert(x.skip(dm.len() as int) =~= tail);
}

} // verus!
