//! Parser traits.
//!
//! A parser has three outcomes:
//!
//! - `Ok(Some(..))`: the input matched and was parsed; the unconsumed input
//!   is returned beside the value,
//! - `Ok(None)`: the input does not look like what this parser reads, and a
//!   caller may try another parser,
//! - `Err(error)`: the input looked like this element but is malformed.
//!
//! [`Parser`] reads a prefix of a line, [`LineParser`] a complete line and
//! [`MultilineParser`] a sequence of lines.  Each parser states what it
//! returns as a spec function over the characters (or lines) it reads.
use vstd::prelude::*;
use vstd::string::*;
use vstd::slice::slice_subrange;

use super::error::ParseError;
use crate::text::{chars_of, is_blank, all_whitespace};

verus! {

broadcast use vstd::seq_lib::group_seq_properties;

/// `r`, the result of a character-level parse of `s`, is what `m` states:
/// the parsed value and the number of characters consumed.
pub open spec fn chars_parsed_as<T: DeepView>(
    r: Result<Option<(T, usize)>, ParseError>,
    m: Result<Option<(T::V, nat)>, ParseError>,
    s: Seq<char>,
) -> bool {
    match m {
        Ok(Some((v, n))) => n <= s.len() && match r {
            Ok(Some((x, k))) => x.deep_view() == v && k == n,
            _ => false,
        },
        Ok(None) => r matches Ok(None),
        Err(e) => r == Err::<Option<(T, usize)>, ParseError>(e),
    }
}

pub proof fn lemma_chars_parsed_some<T: DeepView>(
    r: Result<Option<(T, usize)>, ParseError>,
    m: Result<Option<(T::V, nat)>, ParseError>,
    s: Seq<char>,
)
    requires
        chars_parsed_as(r, m, s),
        r is Ok,
        r->Ok_0 is Some,
    ensures
        m matches Ok(Some((v, n))) && n <= s.len() && n == r->Ok_0->Some_0.1
            && r->Ok_0->Some_0.0.deep_view() == v,
{
}

pub proof fn lemma_lines_parsed_some<T: DeepView>(
    r: Result<Option<(T, usize)>, ParseError>,
    m: Result<Option<(T::V, nat)>, ParseError>,
    available: nat,
)
    requires
        lines_parsed_as(r, m, available),
        r is Ok,
        r->Ok_0 is Some,
    ensures
        m matches Ok(Some((v, n))) && n <= available && n == r->Ok_0->Some_0.1
            && r->Ok_0->Some_0.0.deep_view() == v,
{
}

/// `r`, the result of parsing the string `s`, is what `m` states: the parsed
/// value and the unconsumed rest of `s`.
pub open spec fn parsed_as<T: DeepView>(
    r: Result<Option<(T, &str)>, ParseError>,
    m: Result<Option<(T::V, nat)>, ParseError>,
    s: Seq<char>,
) -> bool {
    match m {
        Ok(Some((v, n))) => n <= s.len() && match r {
            Ok(Some((x, rest))) => x.deep_view() == v && rest@ == s.skip(n as int),
            _ => false,
        },
        Ok(None) => r matches Ok(None),
        Err(e) => r == Err::<Option<(T, &str)>, ParseError>(e),
    }
}

/// The outcome of a parse that must succeed: a missing element is an error.
pub open spec fn required<V>(m: Result<Option<V>, ParseError>) -> Result<V, ParseError> {
    match m {
        Ok(Some(v)) => Ok(v),
        Ok(None) => Err(ParseError::MissingRequired),
        Err(e) => Err(e),
    }
}

/// `r` is the value (or error) that `m` states.
pub open spec fn value_as<T: DeepView>(r: Result<T, ParseError>, m: Result<T::V, ParseError>) -> bool {
    match m {
        Ok(v) => r matches Ok(x) && x.deep_view() == v,
        Err(e) => r == Err::<T, ParseError>(e),
    }
}

/// `r` is the optional value (or error) that `m` states.
pub open spec fn line_parsed_as<T: DeepView>(
    r: Result<Option<T>, ParseError>,
    m: Result<Option<T::V>, ParseError>,
) -> bool {
    match m {
        Ok(Some(v)) => r matches Ok(Some(x)) && x.deep_view() == v,
        Ok(None) => r matches Ok(None),
        Err(e) => r == Err::<Option<T>, ParseError>(e),
    }
}

/// A prefix parse read as a whole-line parse: only whitespace may follow.
pub open spec fn whole_line<V>(m: Result<Option<(V, nat)>, ParseError>, s: Seq<char>) -> Result<
    Option<V>,
    ParseError,
> {
    match m {
        Err(e) => Err(e),
        Ok(None) => Ok(None),
        Ok(Some((v, n))) => if is_blank(s.skip(n as int)) {
            Ok(Some(v))
        } else {
            Err(ParseError::TrailingContentInLine)
        },
    }
}

/// Parses a prefix of a string.
pub trait Parser: Sized {
    type Output: DeepView;

    /// What parsing `s` yields: the value and the number of characters read.
    spec fn spec_parse(&self, s: Seq<char>) -> Result<
        Option<(<Self::Output as DeepView>::V, nat)>,
        ParseError,
    >;

    /// Parses `cs[from..]`, returning the value and the number of characters read.
    fn parse_chars(&self, cs: &Vec<char>, from: usize) -> (r: Result<
        Option<(Self::Output, usize)>,
        ParseError,
    >)
        requires
            from <= cs@.len(),
        ensures
            chars_parsed_as(r, self.spec_parse(cs@.skip(from as int)), cs@.skip(from as int)),
    ;

    /// Parses a prefix of `s`; the unconsumed rest is returned beside the value.
    fn parse<'a>(&self, s: &'a str) -> (r: Result<Option<(Self::Output, &'a str)>, ParseError>)
        ensures
            parsed_as(r, self.spec_parse(s@), s@),
    {
        let cs = chars_of(s);
        assert(cs@.skip(0) =~= cs@);
        let r0 = self.parse_chars(&cs, 0);
        match r0 {
            Err(e) => Err(e),
            Ok(None) => Ok(None),
            Ok(Some((v, n))) => {
                proof {
                    lemma_chars_parsed_some(r0, self.spec_parse(cs@.skip(0)), cs@.skip(0));
                }
                let rest = s.substring_char(n, cs.len());
                Ok(Some((v, rest)))
            },
        }
    }

    /// Parses a prefix of `s` that must be present.
    fn parse_required<'a>(&self, s: &'a str) -> (r: Result<(Self::Output, &'a str), ParseError>)
        ensures
            match self.spec_parse(s@) {
                Ok(Some((v, n))) => r matches Ok((x, rest)) && x.deep_view() == v && rest@ == s@.skip(
                    n as int,
                ),
                Ok(None) => r == Err::<(Self::Output, &'a str), ParseError>(
                    ParseError::MissingRequired,
                ),
                Err(e) => r == Err::<(Self::Output, &'a str), ParseError>(e),
            },
    {
        match self.parse(s) {
            Err(e) => Err(e),
            Ok(None) => Err(ParseError::MissingRequired),
            Ok(Some(p)) => Ok(p),
        }
    }
}

/// Parses a prefix of `cs[from..]` with `p` and requires the rest of the
/// characters to be whitespace.
pub fn whole_line_of<P: Parser>(p: &P, cs: &Vec<char>, from: usize) -> (r: Result<
    Option<P::Output>,
    ParseError,
>)
    requires
        from <= cs@.len(),
    ensures
        line_parsed_as(r, whole_line(p.spec_parse(cs@.skip(from as int)), cs@.skip(from as int))),
{
    let r0 = p.parse_chars(cs, from);
    match r0 {
        Err(e) => Err(e),
        Ok(None) => Ok(None),
        Ok(Some((v, n))) => {
            proof {
                lemma_chars_parsed_some(r0, p.spec_parse(cs@.skip(from as int)), cs@.skip(from as int));
            }
            let len = cs.len();
            let blank = all_whitespace(cs, from + n, len);
            assert(cs@.subrange(from + n, cs@.len() as int) =~= cs@.skip(from as int).skip(
                n as int,
            ));
            if blank {
                Ok(Some(v))
            } else {
                Err(ParseError::TrailingContentInLine)
            }
        },
    }
}

/// Parses a complete line.
pub trait LineParser: Sized {
    type Output: DeepView;

    /// What parsing the line `s` yields.
    spec fn spec_parse_line(&self, s: Seq<char>) -> Result<
        Option<<Self::Output as DeepView>::V>,
        ParseError,
    >;

    /// Parses the line `cs[from..]`.
    fn parse_line_chars(&self, cs: &Vec<char>, from: usize) -> (r: Result<
        Option<Self::Output>,
        ParseError,
    >)
        requires
            from <= cs@.len(),
        ensures
            line_parsed_as(r, self.spec_parse_line(cs@.skip(from as int))),
    ;

    /// Parses the line `line`.
    fn parse_line(&self, line: &str) -> (r: Result<Option<Self::Output>, ParseError>)
        ensures
            line_parsed_as(r, self.spec_parse_line(line@)),
    {
        let cs = chars_of(line);
        assert(cs@.skip(0) =~= cs@);
        self.parse_line_chars(&cs, 0)
    }

    /// Parses the line `cs[from..]`, which must hold this element.
    fn parse_line_required_chars(&self, cs: &Vec<char>, from: usize) -> (r: Result<
        Self::Output,
        ParseError,
    >)
        requires
            from <= cs@.len(),
        ensures
            value_as(r, required(self.spec_parse_line(cs@.skip(from as int)))),
    {
        match self.parse_line_chars(cs, from) {
            Err(e) => Err(e),
            Ok(None) => Err(ParseError::MissingRequired),
            Ok(Some(v)) => Ok(v),
        }
    }

    /// Parses the line `line`, which must hold this element.
    fn parse_line_required(&self, line: &str) -> (r: Result<Self::Output, ParseError>)
        ensures
            value_as(r, required(self.spec_parse_line(line@))),
    {
        let cs = chars_of(line);
        assert(cs@.skip(0) =~= cs@);
        self.parse_line_required_chars(&cs, 0)
    }
}

/// The characters of each line.
pub open spec fn line_views(lines: Seq<&str>) -> Seq<Seq<char>> {
    lines.map_values(|l: &str| l@)
}

/// `r`, the result of parsing `lines[from..]`, is what `m` states: the value
/// and the number of lines consumed.
pub open spec fn lines_parsed_as<T: DeepView>(
    r: Result<Option<(T, usize)>, ParseError>,
    m: Result<Option<(T::V, nat)>, ParseError>,
    available: nat,
) -> bool {
    match m {
        Ok(Some((v, n))) => n <= available && match r {
            Ok(Some((x, k))) => x.deep_view() == v && k == n,
            _ => false,
        },
        Ok(None) => r matches Ok(None),
        Err(e) => r == Err::<Option<(T, usize)>, ParseError>(e),
    }
}

/// What repeated parsing of `ls` with `p` yields: the values parsed until
/// `p` finds no element (or consumes nothing) and the number of lines read.
pub open spec fn spec_many<P: MultilineParser>(p: &P, ls: Seq<Seq<char>>) -> Result<
    (Seq<<P::Output as DeepView>::V>, nat),
    ParseError,
>
    decreases ls.len(),
{
    match p.spec_parse_lines(ls) {
        Err(e) => Err(e),
        Ok(None) => Ok((seq![], 0)),
        Ok(Some((v, n))) => if n == 0 || n > ls.len() {
            Ok((seq![v], n))
        } else {
            match spec_many(p, ls.skip(n as int)) {
                Err(e) => Err(e),
                Ok((vs, m)) => Ok((seq![v] + vs, n + m)),
            }
        },
    }
}

/// The deep views of the items of `v`.
pub open spec fn views_of<T: DeepView>(v: Seq<T>) -> Seq<T::V> {
    v.map_values(|x: T| x.deep_view())
}

/// Parses a sequence of complete lines.
pub trait MultilineParser: Sized {
    type Output: DeepView;

    /// What parsing the lines `ls` yields: the value and the number of lines read.
    spec fn spec_parse_lines(&self, ls: Seq<Seq<char>>) -> Result<
        Option<(<Self::Output as DeepView>::V, nat)>,
        ParseError,
    >;

    /// Parses `lines[from..]`, returning the value and the number of lines read.
    fn parse_lines_at(&self, lines: &[&str], from: usize) -> (r: Result<
        Option<(Self::Output, usize)>,
        ParseError,
    >)
        requires
            from <= lines@.len(),
        ensures
            lines_parsed_as(
                r,
                self.spec_parse_lines(line_views(lines@).skip(from as int)),
                (lines@.len() - from) as nat,
            ),
    ;

    /// Parses a prefix of `lines`; the unconsumed lines are returned beside the value.
    fn parse_lines<'a>(&self, lines: &'a [&'a str]) -> (r: Result<
        Option<(Self::Output, &'a [&'a str])>,
        ParseError,
    >)
        ensures
            match self.spec_parse_lines(line_views(lines@)) {
                Ok(Some((v, n))) => r matches Ok(Some((x, rest))) && x.deep_view() == v
                    && n <= lines@.len() && rest@ == lines@.skip(n as int),
                Ok(None) => r matches Ok(None),
                Err(e) => r matches Err(e2) && e2 == e,
            },
    {
        assert(line_views(lines@).skip(0) =~= line_views(lines@));
        match self.parse_lines_at(lines, 0) {
            Err(e) => Err(e),
            Ok(None) => Ok(None),
            Ok(Some((v, n))) => Ok(Some((v, slice_subrange(lines, n, lines.len())))),
        }
    }

    /// Parses a prefix of `lines` that must be present.
    fn parse_lines_required<'a>(&self, lines: &'a [&'a str]) -> (r: Result<
        (Self::Output, &'a [&'a str]),
        ParseError,
    >)
        ensures
            match self.spec_parse_lines(line_views(lines@)) {
                Ok(Some((v, n))) => r matches Ok((x, rest)) && x.deep_view() == v && n
                    <= lines@.len() && rest@ == lines@.skip(n as int),
                Ok(None) => r matches Err(e) && e == ParseError::MissingRequired,
                Err(e) => r matches Err(e2) && e2 == e,
            },
    {
        match self.parse_lines(lines) {
            Err(e) => Err(e),
            Ok(None) => Err(ParseError::MissingRequired),
            Ok(Some(p)) => Ok(p),
        }
    }

}

/// Parses elements from `lines[from..]` until none is found.
pub fn parse_lines_many_at<P: MultilineParser>(p: &P, lines: &[&str], from: usize) -> (r: Result<
    (Vec<P::Output>, usize),
    ParseError,
>)
    requires
        from <= lines@.len(),
    ensures
        match spec_many(p, line_views(lines@).skip(from as int)) {
            Ok((vs, n)) => r matches Ok((xs, k)) && views_of(xs@) == vs && k == n && from
                + n <= lines@.len(),
            Err(e) => r matches Err(e2) && e2 == e,
        },
{
    let mut result: Vec<P::Output> = Vec::new();
    let mut at = from;
    let ghost ls = line_views(lines@);
    let total = lines.len();
    loop
        invariant
            from <= at <= lines@.len(),
            total == lines@.len(),
            ls == line_views(lines@),
            match spec_many(p, ls.skip(from as int)) {
                Ok((vs, n)) => match spec_many(p, ls.skip(at as int)) {
                    Ok((ws, m)) => vs == views_of(result@) + ws && n == (at - from) + m,
                    Err(_) => false,
                },
                Err(e) => spec_many(p, ls.skip(at as int)) == Err::<
                    (Seq<<P::Output as DeepView>::V>, nat),
                    ParseError,
                >(e),
            },
        decreases lines@.len() - at,
    {
        let ghost before = result@;
        let r0 = p.parse_lines_at(lines, at);
        match r0 {
            Err(e) => {
                return Err(e);
            },
            Ok(None) => {
                assert(views_of(result@) + seq![] =~= views_of(result@));
                return Ok((result, at - from));
            },
            Ok(Some((v, n))) => {
                proof {
                    lemma_lines_parsed_some(
                        r0,
                        p.spec_parse_lines(ls.skip(at as int)),
                        (lines@.len() - at) as nat,
                    );
                }
                result.push(v);
                assert(views_of(result@) =~= views_of(before) + seq![v.deep_view()]);
                if n == 0 {
                    assert(views_of(before) + seq![v.deep_view()] =~= views_of(result@));
                    return Ok((result, at - from));
                }
                proof {
                    assert(ls.skip(at as int).skip(n as int) =~= ls.skip(at + n));
                    let sm = spec_many(p, ls.skip(at + n));
                    if let Ok((ws, m)) = sm {
                        assert(views_of(before) + (seq![v.deep_view()] + ws) =~= views_of(
                            result@,
                        ) + ws);
                    }
                }
                at = at + n;
            },
        }
    }
}

/// Parses elements from the start of `lines` until none is found; the
/// unconsumed lines are returned beside the values.
pub fn parse_lines_many<'a, P: MultilineParser>(p: &P, lines: &'a [&'a str]) -> (r: Result<
    (Vec<P::Output>, &'a [&'a str]),
    ParseError,
>)
    ensures
        match spec_many(p, line_views(lines@)) {
            Ok((vs, n)) => r matches Ok((xs, rest)) && views_of(xs@) == vs && n
                <= lines@.len() && rest@ == lines@.skip(n as int),
            Err(e) => r matches Err(e2) && e2 == e,
        },
{
    assert(line_views(lines@).skip(0) =~= line_views(lines@));
    match parse_lines_many_at(p, lines, 0) {
        Err(e) => Err(e),
        Ok((vs, n)) => Ok((vs, slice_subrange(lines, n, lines.len()))),
    }
}

/// What a line parser yields as a parser of the first of `ls`.
pub open spec fn first_line<V>(m: spec_fn(Seq<char>) -> Result<Option<V>, ParseError>, ls: Seq<
    Seq<char>,
>) -> Result<Option<(V, nat)>, ParseError> {
    if ls.len() == 0 {
        Ok(None)
    } else {
        match m(ls[0]) {
            Err(e) => Err(e),
            Ok(None) => Ok(None),
            Ok(Some(v)) => Ok(Some((v, 1))),
        }
    }
}

/// Parses `lines[from]` with the line parser `p`.
pub fn first_line_of<P: LineParser>(p: &P, lines: &[&str], from: usize) -> (r: Result<
    Option<(P::Output, usize)>,
    ParseError,
>)
    requires
        from <= lines@.len(),
    ensures
        lines_parsed_as(
            r,
            first_line(|s: Seq<char>| p.spec_parse_line(s), line_views(lines@).skip(from as int)),
            (lines@.len() - from) as nat,
        ),
{
    if from == lines.len() {
        return Ok(None);
    }
    let line: &str = lines[from];
    assert(line_views(lines@).skip(from as int)[0] == line@);
    match p.parse_line(line) {
        Err(e) => Err(e),
        Ok(None) => Ok(None),
        Ok(Some(v)) => Ok(Some((v, 1))),
    }
}

} // verus!
