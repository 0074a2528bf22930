use vstd::prelude::*;
use vstd::utf8::*;

use super::error::ParseError;
use super::parser::LineParser;
use crate::text::{
    all_whitespace, decode_bytes, is_blank, is_oct_digit, push_utf8, rspan, span, span_len,
    string_of, trim_end, CharClass,
};

verus! {

broadcast use vstd::seq_lib::group_seq_properties;

/// A file path from a diff.
///
/// Paths that git writes in C-style quotes (`"a/tab\there"`) hold the
/// unescaped text.
#[derive(Debug, PartialEq, Clone)]
pub struct Path(pub String);

impl DeepView for Path {
    type V = Seq<char>;

    open spec fn deep_view(&self) -> Seq<char> {
        self.0@
    }
}

impl Path {
    /// A path holding the characters of `path`.
    pub fn borrowed(path: &str) -> (r: Self)
        ensures
            r.deep_view() == path@,
    {
        Path(path.to_owned())
    }

    /// A path holding the string `path`.
    pub fn owned(path: String) -> (r: Self)
        ensures
            r.deep_view() == path@,
    {
        Path(path)
    }

    /// The same path, owning its text.
    pub fn into_static(self) -> (r: Self)
        ensures
            r.deep_view() == self.deep_view(),
    {
        Path(self.0)
    }

    /// The text of the path.
    pub fn as_str(&self) -> (r: &str)
        ensures
            r@ == self.deep_view(),
    {
        self.0.as_str()
    }
}

/// The value of a run of octal digits.
pub open spec fn oct_value(s: Seq<char>) -> nat
    decreases s.len(),
{
    if s.len() == 0 {
        0
    } else {
        oct_value(s.drop_last()) * 8 + ((s.last() as u32 - '0' as u32) as nat)
    }
}

/// Number of characters an octal escape reads after the backslash: the
/// first digit and up to two more.
pub open spec fn octal_escape_len(t: Seq<char>) -> nat {
    let m = span_len(t.drop_first(), CharClass::OctDigit);
    if m >= 2 {
        3
    } else {
        1 + m
    }
}

/// The byte that an escape sequence stands for, and the number of characters
/// it reads after the backslash; `t` is the text after the backslash.
pub open spec fn spec_escape(t: Seq<char>) -> Result<(u8, nat), ParseError> {
    if t.len() == 0 {
        Err(ParseError::UnterminatedEscape)
    } else {
        let c = t[0];
        if c == 'a' {
            Ok((7u8, 1))
        } else if c == 'b' {
            Ok((8u8, 1))
        } else if c == 'f' {
            Ok((12u8, 1))
        } else if c == 'n' {
            Ok((10u8, 1))
        } else if c == 'r' {
            Ok((13u8, 1))
        } else if c == 't' {
            Ok((9u8, 1))
        } else if c == 'v' {
            Ok((11u8, 1))
        } else if c == '\\' {
            Ok((92u8, 1))
        } else if c == '"' {
            Ok((34u8, 1))
        } else if is_oct_digit(c) {
            let k = octal_escape_len(t);
            let v = oct_value(t.take(k as int));
            if v > 255 {
                Err(ParseError::InvalidOctalEscape)
            } else {
                Ok((v as u8, k))
            }
        } else {
            Err(ParseError::UnsupportedEscape)
        }
    }
}

pub proof fn lemma_escape_len(t: Seq<char>)
    ensures
        spec_escape(t) matches Ok((_, k)) ==> 1 <= k <= t.len(),
{
    if t.len() > 0 {
        crate::text::lemma_span_len(t.drop_first(), CharClass::OctDigit);
    }
}

/// The bytes that the quoted text `s` (after the opening quote) stands for,
/// and the number of characters read, the closing quote included.
#[verifier::opaque]
pub open spec fn spec_unquote(s: Seq<char>) -> Result<(Seq<u8>, nat), ParseError>
    decreases s.len(),
{
    if s.len() == 0 {
        Err(ParseError::UnterminatedQuotedPath)
    } else if s[0] == '"' {
        Ok((seq![], 1))
    } else if s[0] == '\\' {
        match spec_escape(s.drop_first()) {
            Err(e) => Err(e),
            Ok((b, k)) => {
                proof {
                    lemma_escape_len(s.drop_first());
                }
                match spec_unquote(s.skip((1 + k) as int)) {
                    Err(e) => Err(e),
                    Ok((bs, m)) => Ok((seq![b] + bs, 1 + k + m)),
                }
            },
        }
    } else {
        match spec_unquote(s.drop_first()) {
            Err(e) => Err(e),
            Ok((bs, m)) => Ok((encode_scalar(s[0] as u32) + bs, 1 + m)),
        }
    }
}

/// What reading a C-style quoted path at the start of `s` yields: the
/// unescaped text and the number of characters read.
pub open spec fn spec_quoted_path(s: Seq<char>) -> Result<Option<(Seq<char>, nat)>, ParseError> {
    if !(s.len() > 0 && s[0] == '"') {
        Ok(None)
    } else {
        match spec_unquote(s.drop_first()) {
            Err(e) => Err(e),
            Ok((b, m)) => if valid_utf8(b) {
                Ok(Some((decode_utf8(b), 1 + m)))
            } else {
                Err(ParseError::InvalidUtf8)
            },
        }
    }
}

pub open spec fn glue(bs: Seq<u8>, off: nat, r: Result<(Seq<u8>, nat), ParseError>) -> Result<
    (Seq<u8>, nat),
    ParseError,
> {
    match r {
        Err(e) => Err(e),
        Ok((b, m)) => Ok((bs + b, off + m)),
    }
}

/// Reads the escape sequence at `cs[at..]`, just after a backslash.
fn parse_escape(cs: &Vec<char>, at: usize) -> (r: Result<(u8, usize), ParseError>)
    requires
        at <= cs@.len(),
    ensures
        match spec_escape(cs@.skip(at as int)) {
            Ok((b, k)) => r == Ok::<(u8, usize), ParseError>((b, k as usize)),
            Err(e) => r == Err::<(u8, usize), ParseError>(e),
        },
{
    let ghost t = cs@.skip(at as int);
    let len = cs.len();
    if at == len {
        return Err(ParseError::UnterminatedEscape);
    }
    let c = cs[at];
    assert(t[0] == c);
    if c == 'a' {
        Ok((7u8, 1))
    } else if c == 'b' {
        Ok((8u8, 1))
    } else if c == 'f' {
        Ok((12u8, 1))
    } else if c == 'n' {
        Ok((10u8, 1))
    } else if c == 'r' {
        Ok((13u8, 1))
    } else if c == 't' {
        Ok((9u8, 1))
    } else if c == 'v' {
        Ok((11u8, 1))
    } else if c == '\\' {
        Ok((92u8, 1))
    } else if c == '"' {
        Ok((34u8, 1))
    } else if '0' <= c && c <= '7' {
        let mut value: u32 = (c as u32) - ('0' as u32);
        let mut count: usize = 1;
        proof {
            crate::text::lemma_span_len(t.drop_first(), CharClass::OctDigit);
            assert(t.take(1).drop_last() =~= Seq::<char>::empty());
            assert(t.take(1).last() == c);
            assert(oct_value(t.take(1).drop_last()) == 0);
        }
        while count < 3 && at + count < len && '0' <= cs[at + count] && cs[at + count] <= '7'
            invariant
                1 <= count <= 3,
                at + count <= len == cs@.len(),
                t == cs@.skip(at as int),
                value == oct_value(t.take(count as int)),
                count == 1 ==> value < 8,
                count == 2 ==> value < 64,
                count == 3 ==> value < 512,
                forall|j: int| 1 <= j < count ==> is_oct_digit(#[trigger] t[j]),
            decreases 3 - count,
        {
            let d = cs[at + count];
            assert(t[count as int] == d);
            assert(t.take(count + 1).drop_last() =~= t.take(count as int));
            value = value * 8 + ((d as u32) - ('0' as u32));
            count += 1;
        }
        proof {
            let m = span_len(t.drop_first(), CharClass::OctDigit);
            assert forall|j: int| 0 <= j < count - 1 implies is_oct_digit(
                #[trigger] t.drop_first()[j],
            ) by {
                assert(t.drop_first()[j] == t[j + 1]);
            }
            if count < 3 {
                if at + count < len {
                    assert(t.drop_first()[count - 1] == cs@[at + count]);
                }
                crate::text::lemma_span_len_exact(t.drop_first(), CharClass::OctDigit, count - 1);
            } else {
                assert(m >= 2) by {
                    if m < 2 {
                        assert(t.drop_first()[m as int] == t[(m + 1) as int]);
                    }
                }
            }
        }
        if value > 255 {
            Err(ParseError::InvalidOctalEscape)
        } else {
            Ok((value as u8, count))
        }
    } else {
        Err(ParseError::UnsupportedEscape)
    }
}

proof fn lemma_glue_assoc(bs: Seq<u8>, off: nat, b: Seq<u8>, k: nat, r: Result<(Seq<u8>, nat), ParseError>)
    ensures
        glue(bs, off, glue(b, k, r)) == glue(bs + b, off + k, r),
{
    if let Ok((x, m)) = r {
        assert(bs + (b + x) =~= (bs + b) + x);
    }
}

proof fn lemma_unquote_quote(cs: Seq<char>, i: int)
    requires
        0 <= i < cs.len(),
        cs[i] == '"',
    ensures
        spec_unquote(cs.skip(i)) == Ok::<(Seq<u8>, nat), ParseError>((seq![], 1)),
{
    reveal(spec_unquote);
    assert(cs.skip(i)[0] == cs[i]);
}

proof fn lemma_unquote_escape_err(cs: Seq<char>, i: int)
    requires
        0 <= i < cs.len(),
        cs[i] == '\\',
        spec_escape(cs.skip(i + 1)) is Err,
    ensures
        spec_unquote(cs.skip(i)) == Err::<(Seq<u8>, nat), ParseError>(
            spec_escape(cs.skip(i + 1))->Err_0,
        ),
{
    reveal(spec_unquote);
    assert(cs.skip(i)[0] == cs[i]);
    assert(cs.skip(i).drop_first() =~= cs.skip(i + 1));
}

proof fn lemma_unquote_escape(cs: Seq<char>, i: int, b: u8, k: nat)
    requires
        0 <= i < cs.len(),
        cs[i] == '\\',
        spec_escape(cs.skip(i + 1)) == Ok::<(u8, nat), ParseError>((b, k)),
    ensures
        i + 1 + k <= cs.len(),
        spec_unquote(cs.skip(i)) == glue(seq![b], 1 + k, spec_unquote(cs.skip(i + 1 + k))),
{
    reveal(spec_unquote);
    let s = cs.skip(i);
    assert(s[0] == cs[i]);
    assert(s.drop_first() =~= cs.skip(i + 1));
    lemma_escape_len(cs.skip(i + 1));
    assert(s.skip((1 + k) as int) =~= cs.skip(i + 1 + k));
}

proof fn lemma_unquote_char(cs: Seq<char>, i: int)
    requires
        0 <= i < cs.len(),
        cs[i] != '"',
        cs[i] != '\\',
    ensures
        spec_unquote(cs.skip(i)) == glue(
            encode_scalar(cs[i] as u32),
            1,
            spec_unquote(cs.skip(i + 1)),
        ),
{
    reveal(spec_unquote);
    let s = cs.skip(i);
    assert(s[0] == cs[i]);
    assert(s.drop_first() =~= cs.skip(i + 1));
}

/// Reads the quoted text `cs[start..]` that follows an opening quote.
fn parse_unquote(cs: &Vec<char>, start: usize) -> (r: Result<(Vec<u8>, usize), ParseError>)
    requires
        start <= cs@.len(),
    ensures
        match spec_unquote(cs@.skip(start as int)) {
            Ok((b, m)) => r matches Ok((bytes, k)) && bytes@ == b && k == m && start + m
                <= cs@.len(),
            Err(e) => r matches Err(e2) && e2 == e,
        },
{
    let len = cs.len();
    let mut bytes: Vec<u8> = Vec::new();
    let mut i = start;
    assert(bytes@ + Seq::<u8>::empty() =~= bytes@);
    while i < len
        invariant
            start <= i <= len == cs@.len(),
            spec_unquote(cs@.skip(start as int)) == glue(
                bytes@,
                (i - start) as nat,
                spec_unquote(cs@.skip(i as int)),
            ),
        decreases len - i,
    {
        let c = cs[i];
        if c == '"' {
            proof {
                lemma_unquote_quote(cs@, i as int);
            }
            assert(bytes@ + Seq::<u8>::empty() =~= bytes@);
            return Ok((bytes, i - start + 1));
        } else if c == '\\' {
            match parse_escape(cs, i + 1) {
                Err(e) => {
                    proof {
                        lemma_unquote_escape_err(cs@, i as int);
                    }
                    return Err(e);
                },
                Ok((b, k)) => {
                    proof {
                        lemma_unquote_escape(cs@, i as int, b, k as nat);
                        lemma_glue_assoc(
                            bytes@,
                            (i - start) as nat,
                            seq![b],
                            (1 + k) as nat,
                            spec_unquote(cs@.skip(i + 1 + k)),
                        );
                        assert(bytes@ + seq![b] =~= bytes@.push(b));
                    }
                    bytes.push(b);
                    i = i + 1 + k;
                },
            }
        } else {
            let ghost before = bytes@;
            push_utf8(&mut bytes, c);
            proof {
                lemma_unquote_char(cs@, i as int);
                lemma_glue_assoc(
                    before,
                    (i - start) as nat,
                    encode_scalar(c as u32),
                    1,
                    spec_unquote(cs@.skip(i + 1)),
                );
            }
            i = i + 1;
        }
    }
    proof {
        reveal(spec_unquote);
        assert(cs@.skip(i as int).len() == 0);
    }
    Err(ParseError::UnterminatedQuotedPath)
}

/// Reads a C-style quoted path at `cs[from..]`.
pub fn parse_quoted_path_chars(cs: &Vec<char>, from: usize) -> (r: Result<
    Option<(String, usize)>,
    ParseError,
>)
    requires
        from <= cs@.len(),
    ensures
        match spec_quoted_path(cs@.skip(from as int)) {
            Ok(Some((p, n))) => r matches Ok(Some((x, k))) && x@ == p && k == n && from + n
                <= cs@.len(),
            Ok(None) => r matches Ok(None),
            Err(e) => r matches Err(e2) && e2 == e,
        },
{
    let ghost s = cs@.skip(from as int);
    if from == cs.len() || cs[from] != '"' {
        return Ok(None);
    }
    assert(s[0] == cs@[from as int]);
    assert(s.drop_first() =~= cs@.skip(from + 1));
    match parse_unquote(cs, from + 1) {
        Err(e) => Err(e),
        Ok((bytes, m)) => match decode_bytes(bytes) {
            Some(text) => Ok(Some((text, 1 + m))),
            None => Err(ParseError::InvalidUtf8),
        },
    }
}

/// Reads a C-style quoted path at the start of `line`; the unconsumed rest
/// of the line is returned beside the unescaped path.
pub fn parse_quoted_path(line: &str) -> (r: Result<Option<(String, &str)>, ParseError>)
    ensures
        match spec_quoted_path(line@) {
            Ok(Some((p, n))) => r matches Ok(Some((x, rest))) && x@ == p && rest@ == line@.skip(
                n as int,
            ),
            Ok(None) => r matches Ok(None),
            Err(e) => r matches Err(e2) && e2 == e,
        },
{
    let cs = crate::text::chars_of(line);
    assert(cs@.skip(0) =~= cs@);
    match parse_quoted_path_chars(&cs, 0) {
        Err(e) => Err(e),
        Ok(None) => Ok(None),
        Ok(Some((p, n))) => Ok(Some((p, vstd::string::StrSliceExecFns::substring_char(line, n, cs.len())))),
    }
}

/// Reads a complete path, quoted or not; trailing whitespace of an unquoted
/// path is dropped.
#[derive(Debug, Default, Clone, Copy)]
pub struct PathParser;

impl LineParser for PathParser {
    type Output = Path;

    open spec fn spec_parse_line(&self, s: Seq<char>) -> Result<Option<Seq<char>>, ParseError> {
        match spec_quoted_path(s) {
            Err(e) => Err(e),
            Ok(Some((p, n))) => if is_blank(s.skip(n as int)) {
                Ok(Some(p))
            } else {
                Err(ParseError::TrailingContentInQuotedPath)
            },
            Ok(None) => if trim_end(s).len() == 0 {
                Err(ParseError::NoPath)
            } else {
                Ok(Some(trim_end(s)))
            },
        }
    }

    fn parse_line_chars(&self, cs: &Vec<char>, from: usize) -> (r: Result<Option<Path>, ParseError>) {
        let ghost s = cs@.skip(from as int);
        let len = cs.len();
        match parse_quoted_path_chars(cs, from) {
            Err(e) => Err(e),
            Ok(Some((p, n))) => {
                let blank = all_whitespace(cs, from + n, len);
                assert(cs@.subrange(from + n, len as int) =~= s.skip(n as int));
                if blank {
                    let path = Path(p);
                    assert(path.deep_view() == p@);
                    Ok(Some(path))
                } else {
                    Err(ParseError::TrailingContentInQuotedPath)
                }
            },
            Ok(None) => {
                let end = rspan(cs, from, len, CharClass::Whitespace);
                assert(cs@.subrange(from as int, len as int) =~= s);
                if end == from {
                    Err(ParseError::NoPath)
                } else {
                    let text = string_of(cs, from, end);
                    assert(cs@.subrange(from as int, end as int) =~= trim_end(s));
                    let path = Path(text);
                    assert(path.deep_view() == trim_end(s));
                    Ok(Some(path))
                }
            },
        }
    }
}

} // verus!
