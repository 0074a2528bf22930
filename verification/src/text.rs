//! Text primitives over character sequences.
//!
//! All text handled by the library is modelled as a `Seq<char>` (the view of
//! `str` and `String`).  The functions here scan `Vec<char>` buffers, which
//! gives constant-time indexing, and build `String` values back from
//! characters through their UTF-8 encoding.
use vstd::prelude::*;
use vstd::utf8::*;

verus! {

broadcast use vstd::seq_lib::group_seq_properties;

/// Unicode `White_Space`, the set of characters `char::is_whitespace` accepts.
pub open spec fn is_ws(c: char) -> bool {
    ||| ('\t' <= c && c <= '\r')
    ||| c == ' '
    ||| c == '\u{85}'
    ||| c == '\u{a0}'
    ||| c == '\u{1680}'
    ||| ('\u{2000}' <= c && c <= '\u{200a}')
    ||| c == '\u{2028}'
    ||| c == '\u{2029}'
    ||| c == '\u{202f}'
    ||| c == '\u{205f}'
    ||| c == '\u{3000}'
}

pub open spec fn is_ascii_digit(c: char) -> bool {
    '0' <= c && c <= '9'
}

pub open spec fn is_oct_digit(c: char) -> bool {
    '0' <= c && c <= '7'
}

pub open spec fn is_hex_digit(c: char) -> bool {
    ||| is_ascii_digit(c)
    ||| ('a' <= c && c <= 'f')
    ||| ('A' <= c && c <= 'F')
}

pub open spec fn is_ascii_alnum(c: char) -> bool {
    ||| is_ascii_digit(c)
    ||| ('a' <= c && c <= 'z')
    ||| ('A' <= c && c <= 'Z')
}

/// Classes of characters that the scanners below can skip over.
#[derive(Clone, Copy, PartialEq, Eq, Debug)]
pub enum CharClass {
    Whitespace,
    AsciiDigit,
    HexDigit,
    OctDigit,
    At,
}

pub open spec fn in_class(k: CharClass, c: char) -> bool {
    match k {
        CharClass::Whitespace => is_ws(c),
        CharClass::AsciiDigit => is_ascii_digit(c),
        CharClass::HexDigit => is_hex_digit(c),
        CharClass::OctDigit => is_oct_digit(c),
        CharClass::At => c == '@',
    }
}

pub fn is_whitespace(c: char) -> (b: bool)
    ensures
        b == is_ws(c),
{
    ('\t' <= c && c <= '\r') || c == ' ' || c == '\u{85}' || c == '\u{a0}' || c == '\u{1680}'
        || ('\u{2000}' <= c && c <= '\u{200a}') || c == '\u{2028}' || c == '\u{2029}' || c
        == '\u{202f}' || c == '\u{205f}' || c == '\u{3000}'
}

/// Whether `c` is an ASCII letter or digit.
pub fn is_alnum(c: char) -> (b: bool)
    ensures
        b == is_ascii_alnum(c),
{
    ('0' <= c && c <= '9') || ('a' <= c && c <= 'z') || ('A' <= c && c <= 'Z')
}

pub fn class_contains(k: CharClass, c: char) -> (b: bool)
    ensures
        b == in_class(k, c),
{
    match k {
        CharClass::Whitespace => is_whitespace(c),
        CharClass::AsciiDigit => '0' <= c && c <= '9',
        CharClass::HexDigit => ('0' <= c && c <= '9') || ('a' <= c && c <= 'f') || ('A' <= c && c
            <= 'F'),
        CharClass::OctDigit => '0' <= c && c <= '7',
        CharClass::At => c == '@',
    }
}

/// Length of the longest prefix of `s` whose characters all lie in class `k`.
pub open spec fn span_len(s: Seq<char>, k: CharClass) -> nat
    decreases s.len(),
{
    if s.len() > 0 && in_class(k, s[0]) {
        1 + span_len(s.drop_first(), k)
    } else {
        0
    }
}

/// Length of the longest suffix of `s` whose characters all lie in class `k`.
pub open spec fn rspan_len(s: Seq<char>, k: CharClass) -> nat
    decreases s.len(),
{
    if s.len() > 0 && in_class(k, s.last()) {
        1 + rspan_len(s.drop_last(), k)
    } else {
        0
    }
}

pub proof fn lemma_span_len(s: Seq<char>, k: CharClass)
    ensures
        span_len(s, k) <= s.len(),
        forall|j: int| 0 <= j < span_len(s, k) ==> in_class(k, #[trigger] s[j]),
        span_len(s, k) < s.len() ==> !in_class(k, s[span_len(s, k) as int]),
    decreases s.len(),
{
    if s.len() > 0 && in_class(k, s[0]) {
        lemma_span_len(s.drop_first(), k);
        assert forall|j: int| 0 <= j < span_len(s, k) implies in_class(k, #[trigger] s[j]) by {
            if j > 0 {
                assert(s[j] == s.drop_first()[j - 1]);
            }
        }
    }
}

pub proof fn lemma_rspan_len(s: Seq<char>, k: CharClass)
    ensures
        rspan_len(s, k) <= s.len(),
        forall|j: int|
            s.len() - rspan_len(s, k) <= j < s.len() ==> in_class(k, #[trigger] s[j]),
        rspan_len(s, k) < s.len() ==> !in_class(k, s[s.len() - rspan_len(s, k) - 1]),
    decreases s.len(),
{
    if s.len() > 0 && in_class(k, s.last()) {
        lemma_rspan_len(s.drop_last(), k);
        assert forall|j: int|
            s.len() - rspan_len(s, k) <= j < s.len() implies in_class(k, #[trigger] s[j]) by {
            if j < s.len() - 1 {
                assert(s[j] == s.drop_last()[j]);
            }
        }
    }
}

/// A prefix made only of characters of class `k`, followed by a character
/// outside it (or the end), determines `span_len`.
pub proof fn lemma_span_len_exact(s: Seq<char>, k: CharClass, n: int)
    requires
        0 <= n <= s.len(),
        forall|j: int| 0 <= j < n ==> in_class(k, #[trigger] s[j]),
        n < s.len() ==> !in_class(k, s[n]),
    ensures
        span_len(s, k) == n,
    decreases n,
{
    if n > 0 {
        assert forall|j: int| 0 <= j < n - 1 implies in_class(k, #[trigger] s.drop_first()[j]) by {
            assert(s.drop_first()[j] == s[j + 1]);
        }
        lemma_span_len_exact(s.drop_first(), k, n - 1);
    }
}

pub proof fn lemma_rspan_len_exact(s: Seq<char>, k: CharClass, n: int)
    requires
        0 <= n <= s.len(),
        forall|j: int| s.len() - n <= j < s.len() ==> in_class(k, #[trigger] s[j]),
        n < s.len() ==> !in_class(k, s[s.len() - n - 1]),
    ensures
        rspan_len(s, k) == n,
    decreases n,
{
    if n > 0 {
        let t = s.drop_last();
        assert forall|j: int| t.len() - (n - 1) <= j < t.len() implies in_class(k, #[trigger] t[j]) by {
            assert(t[j] == s[j]);
        }
        lemma_rspan_len_exact(t, k, n - 1);
    }
}

pub open spec fn trim_start(s: Seq<char>) -> Seq<char> {
    s.skip(span_len(s, CharClass::Whitespace) as int)
}

pub open spec fn trim_end(s: Seq<char>) -> Seq<char> {
    s.take(s.len() - rspan_len(s, CharClass::Whitespace))
}

pub open spec fn trim(s: Seq<char>) -> Seq<char> {
    trim_end(trim_start(s))
}

pub open spec fn is_blank(s: Seq<char>) -> bool {
    forall|j: int| 0 <= j < s.len() ==> is_ws(#[trigger] s[j])
}

pub proof fn lemma_trim_empty(s: Seq<char>)
    ensures
        trim(s).len() == 0 <==> is_blank(s),
{
    let k = CharClass::Whitespace;
    lemma_span_len(s, k);
    let t = trim_start(s);
    lemma_rspan_len(t, k);
    if is_blank(s) {
        lemma_span_len_exact(s, k, s.len() as int);
    }
    if trim(s).len() == 0 {
        assert forall|j: int| 0 <= j < s.len() implies is_ws(#[trigger] s[j]) by {
            if j >= span_len(s, k) {
                assert(s[j] == t[j - span_len(s, k)]);
            }
        }
    }
}

pub open spec fn starts_with(s: Seq<char>, p: Seq<char>) -> bool {
    p.len() <= s.len() && s.take(p.len() as int) == p
}

pub open spec fn ends_with(s: Seq<char>, p: Seq<char>) -> bool {
    p.len() <= s.len() && s.skip(s.len() - p.len()) == p
}

/// The first position at or after `from` where `p` occurs in `s`.
pub open spec fn find_from(s: Seq<char>, p: Seq<char>, from: int) -> Option<int>
    decreases s.len() - from,
{
    if from < 0 || from + p.len() > s.len() {
        None
    } else if starts_with(s.skip(from), p) {
        Some(from)
    } else {
        find_from(s, p, from + 1)
    }
}

pub open spec fn find(s: Seq<char>, p: Seq<char>) -> Option<int> {
    find_from(s, p, 0)
}

pub proof fn lemma_find_from(s: Seq<char>, p: Seq<char>, from: int)
    requires
        0 <= from,
    ensures
        find_from(s, p, from) matches Some(i) ==> from <= i && i + p.len() <= s.len()
            && starts_with(s.skip(i), p) && forall|j: int|
            from <= j < i ==> !starts_with(#[trigger] s.skip(j), p),
        find_from(s, p, from) is None ==> forall|j: int|
            from <= j && j + p.len() <= s.len() ==> !starts_with(#[trigger] s.skip(j), p),
    decreases s.len() - from,
{
    if from + p.len() > s.len() {
    } else if starts_with(s.skip(from), p) {
    } else {
        lemma_find_from(s, p, from + 1);
    }
}

/// Decimal value of a run of ASCII digits.
pub open spec fn digits_value(s: Seq<char>) -> nat
    decreases s.len(),
{
    if s.len() == 0 {
        0
    } else {
        digits_value(s.drop_last()) * 10 + ((s.last() as u32 - '0' as u32) as nat)
    }
}

/// Decimal digits of `n`, without leading zeros (`"0"` for zero).
pub open spec fn decimal(n: nat) -> Seq<char>
    decreases n,
{
    if n < 10 {
        seq![digit_char(n)]
    } else {
        decimal(n / 10).push(digit_char(n % 10))
    }
}

pub open spec fn digit_char(d: nat) -> char {
    if d == 0 {
        '0'
    } else if d == 1 {
        '1'
    } else if d == 2 {
        '2'
    } else if d == 3 {
        '3'
    } else if d == 4 {
        '4'
    } else if d == 5 {
        '5'
    } else if d == 6 {
        '6'
    } else if d == 7 {
        '7'
    } else if d == 8 {
        '8'
    } else {
        '9'
    }
}

/// The lines of `s` as `str::lines` yields them: split at `\n`, a `\r`
/// right before the `\n` dropped, no empty last line after a final `\n`.
pub open spec fn lines_of(s: Seq<char>) -> Seq<Seq<char>>
    decreases s.len(),
{
    if s.len() == 0 {
        seq![]
    } else {
        match find(s, seq!['\n']) {
            None => seq![s],
            Some(i) => {
                proof {
                    lemma_find_from(s, seq!['\n'], 0);
                }
                seq![strip_cr(s.take(i))] + lines_of(s.skip(i + 1))
            },
        }
    }
}

pub open spec fn strip_cr(s: Seq<char>) -> Seq<char> {
    if s.len() > 0 && s.last() == '\r' {
        s.drop_last()
    } else {
        s
    }
}

// ---------------------------------------------------------------------------
// Executable helpers
// ---------------------------------------------------------------------------

/// The characters of `s`, in order.
pub fn chars_of(s: &str) -> (r: Vec<char>)
    ensures
        r@ == s@,
{
    let mut r: Vec<char> = Vec::new();
    for c in it: s.chars()
        invariant
            r@ == it.seq().take(it.index() as int),
    {
        r.push(c);
    }
    r
}

/// `String::from_utf8`: the string that `bytes` encode, if they are valid UTF-8.
#[verifier::external_body]
fn string_from_utf8(bytes: Vec<u8>) -> (r: Option<String>)
    ensures
        r is Some <==> valid_utf8(bytes@),
        r matches Some(s) ==> s@ == decode_utf8(bytes@),
{
    String::from_utf8(bytes).ok()
}

/// Decodes UTF-8 bytes into a string; `None` for invalid UTF-8.
pub fn decode_bytes(bytes: Vec<u8>) -> (r: Option<String>)
    ensures
        r is Some <==> valid_utf8(bytes@),
        r matches Some(s) ==> s@ == decode_utf8(bytes@),
{
    string_from_utf8(bytes)
}

/// Appends the UTF-8 encoding of `c` to `out`.
pub fn push_utf8(out: &mut Vec<u8>, c: char)
    ensures
        final(out)@ == old(out)@ + encode_scalar(c as u32),
{
    let v = c as u32;
    proof {
        char_is_scalar(c);
    }
    if v <= 0x7F {
        out.push((v & 0x7F) as u8);
    } else if v <= 0x7FF {
        out.push(0xC0 | ((v >> 6) & 0x1F) as u8);
        out.push(0x80 | (v & 0x3F) as u8);
    } else if v <= 0xFFFF {
        out.push(0xE0 | ((v >> 12) & 0x0F) as u8);
        out.push(0x80 | ((v >> 6) & 0x3F) as u8);
        out.push(0x80 | (v & 0x3F) as u8);
    } else {
        out.push(0xF0 | ((v >> 18) & 0x7) as u8);
        out.push(0x80 | ((v >> 12) & 0x3F) as u8);
        out.push(0x80 | ((v >> 6) & 0x3F) as u8);
        out.push(0x80 | (v & 0x3F) as u8);
    }
}

proof fn lemma_encode_utf8_push(cs: Seq<char>, c: char)
    ensures
        encode_utf8(cs.push(c)) == encode_utf8(cs) + encode_scalar(c as u32),
    decreases cs.len(),
{
    if cs.len() == 0 {
        assert(cs.push(c).drop_first() =~= Seq::<char>::empty());
    } else {
        assert(cs.push(c).drop_first() =~= cs.drop_first().push(c));
        lemma_encode_utf8_push(cs.drop_first(), c);
    }
}

/// The string made of `cs[from..to]`.
pub fn string_of(cs: &Vec<char>, from: usize, to: usize) -> (r: String)
    requires
        from <= to <= cs@.len(),
    ensures
        r@ == cs@.subrange(from as int, to as int),
{
    let mut bytes: Vec<u8> = Vec::new();
    let mut i = from;
    while i < to
        invariant
            from <= i <= to <= cs@.len(),
            bytes@ == encode_utf8(cs@.subrange(from as int, i as int)),
        decreases to - i,
    {
        proof {
            lemma_encode_utf8_push(cs@.subrange(from as int, i as int), cs@[i as int]);
            assert(cs@.subrange(from as int, i as int).push(cs@[i as int]) =~= cs@.subrange(
                from as int,
                i + 1,
            ));
        }
        push_utf8(&mut bytes, cs[i]);
        i += 1;
    }
    proof {
        encode_utf8_valid_utf8(cs@.subrange(from as int, to as int));
        encode_utf8_decode_utf8(cs@.subrange(from as int, to as int));
    }
    match string_from_utf8(bytes) {
        Some(s) => s,
        None => String::new(),
    }
}

/// The string made of all of `cs`.
pub fn string_from(cs: &Vec<char>) -> (r: String)
    ensures
        r@ == cs@,
{
    let r = string_of(cs, 0, cs.len());
    assert(cs@.subrange(0, cs@.len() as int) =~= cs@);
    r
}

/// Appends all of `s` to `out`.
pub fn push_str(out: &mut Vec<char>, s: &str)
    ensures
        final(out)@ == old(out)@ + s@,
{
    let cs = chars_of(s);
    append_chars(out, &cs);
}

/// Appends all of `cs` to `out`.
pub fn append_chars(out: &mut Vec<char>, cs: &Vec<char>)
    ensures
        final(out)@ == old(out)@ + cs@,
{
    let mut i: usize = 0;
    while i < cs.len()
        invariant
            i <= cs@.len(),
            out@ == old(out)@ + cs@.take(i as int),
        decreases cs.len() - i,
    {
        out.push(cs[i]);
        i += 1;
        assert(out@ =~= old(out)@ + cs@.take(i as int));
    }
    assert(cs@.take(cs@.len() as int) =~= cs@);
}

/// The index just past the longest run of class `k` starting at `from`.
pub fn span(cs: &Vec<char>, from: usize, k: CharClass) -> (r: usize)
    requires
        from <= cs@.len(),
    ensures
        from <= r <= cs@.len(),
        r - from == span_len(cs@.skip(from as int), k),
{
    let mut i = from;
    while i < cs.len() && class_contains(k, cs[i])
        invariant
            from <= i <= cs@.len(),
            forall|j: int| from <= j < i ==> in_class(k, #[trigger] cs@[j]),
        decreases cs.len() - i,
    {
        i += 1;
    }
    proof {
        let t = cs@.skip(from as int);
        assert forall|j: int| 0 <= j < i - from implies in_class(k, #[trigger] t[j]) by {
            assert(t[j] == cs@[from + j]);
        }
        if i < cs@.len() {
            assert(t[i - from] == cs@[i as int]);
        }
        lemma_span_len_exact(t, k, i - from);
    }
    i
}

/// The start of the longest run of class `k` that ends at `to`.
pub fn rspan(cs: &Vec<char>, from: usize, to: usize, k: CharClass) -> (r: usize)
    requires
        from <= to <= cs@.len(),
    ensures
        from <= r <= to,
        to - r == rspan_len(cs@.subrange(from as int, to as int), k),
{
    let mut i = to;
    while i > from && class_contains(k, cs[i - 1])
        invariant
            from <= i <= to <= cs@.len(),
            forall|j: int| i <= j < to ==> in_class(k, #[trigger] cs@[j]),
        decreases i - from,
    {
        i -= 1;
    }
    proof {
        let t = cs@.subrange(from as int, to as int);
        assert forall|j: int| t.len() - (to - i) <= j < t.len() implies in_class(
            k,
            #[trigger] t[j],
        ) by {
            assert(t[j] == cs@[from + j]);
        }
        if i > from {
            assert(t[t.len() - (to - i) - 1] == cs@[i - 1]);
        }
        lemma_rspan_len_exact(t, k, to - i);
    }
    i
}

/// A copy of `cs[from..to]`.
pub fn sub_chars(cs: &Vec<char>, from: usize, to: usize) -> (r: Vec<char>)
    requires
        from <= to <= cs@.len(),
    ensures
        r@ == cs@.subrange(from as int, to as int),
{
    let mut r: Vec<char> = Vec::new();
    let mut i = from;
    while i < to
        invariant
            from <= i <= to <= cs@.len(),
            r@ == cs@.subrange(from as int, i as int),
        decreases to - i,
    {
        r.push(cs[i]);
        i += 1;
        assert(r@ =~= cs@.subrange(from as int, i as int));
    }
    r
}

/// The last position of `c` in `s`.
pub open spec fn rfind_char(s: Seq<char>, c: char) -> Option<int>
    decreases s.len(),
{
    if s.len() == 0 {
        None
    } else if s.last() == c {
        Some(s.len() - 1)
    } else {
        rfind_char(s.drop_last(), c)
    }
}

pub proof fn lemma_rfind_char(s: Seq<char>, c: char)
    ensures
        rfind_char(s, c) matches Some(i) ==> 0 <= i < s.len() && s[i] == c && forall|j: int|
            i < j < s.len() ==> #[trigger] s[j] != c,
        rfind_char(s, c) is None ==> forall|j: int| 0 <= j < s.len() ==> #[trigger] s[j] != c,
    decreases s.len(),
{
    if s.len() > 0 && s.last() != c {
        lemma_rfind_char(s.drop_last(), c);
        assert forall|j: int| 0 <= j < s.len() - 1 implies #[trigger] s[j] == s.drop_last()[j] by {}
    }
}

/// The last position of `c` in `cs[..to]`.
pub fn rfind_char_in(cs: &Vec<char>, to: usize, c: char) -> (r: Option<usize>)
    requires
        to <= cs@.len(),
    ensures
        r matches Some(i) ==> rfind_char(cs@.take(to as int), c) == Some(i as int),
        r is None ==> rfind_char(cs@.take(to as int), c) is None,
{
    let mut i = to;
    while i > 0 && cs[i - 1] != c
        invariant
            i <= to <= cs@.len(),
            forall|j: int| i <= j < to ==> #[trigger] cs@[j] != c,
        decreases i,
    {
        i -= 1;
    }
    proof {
        let t = cs@.take(to as int);
        lemma_rfind_char(t, c);
        if i > 0 {
            if rfind_char(t, c) != Some((i - 1) as int) {
                match rfind_char(t, c) {
                    Some(k) => {
                        if k < i - 1 {
                            assert(t[i - 1] == cs@[i - 1]);
                        } else {
                            assert(t[k] == cs@[k]);
                        }
                    },
                    None => {
                        assert(t[i - 1] == cs@[i - 1]);
                    },
                }
            }
        } else {
            match rfind_char(t, c) {
                Some(k) => {
                    assert(t[k] == cs@[k]);
                },
                None => {},
            }
        }
    }
    if i > 0 {
        Some(i - 1)
    } else {
        None
    }
}

/// Whether `cs[from..]` starts with `p`.
pub fn has_prefix_at(cs: &Vec<char>, from: usize, p: &Vec<char>) -> (b: bool)
    requires
        from <= cs@.len(),
    ensures
        b == starts_with(cs@.skip(from as int), p@),
{
    if p.len() > cs.len() - from {
        return false;
    }
    let mut i: usize = 0;
    while i < p.len()
        invariant
            i <= p@.len(),
            from + p@.len() <= cs.len(),
            forall|j: int| 0 <= j < i ==> cs@[from + j] == p@[j],
        decreases p.len() - i,
    {
        assert(from + i < cs@.len());
        if cs[from + i] != p[i] {
            assert(cs@.skip(from as int).take(p@.len() as int)[i as int] != p@[i as int]);
            return false;
        }
        i += 1;
    }
    assert(cs@.skip(from as int).take(p@.len() as int) =~= p@);
    true
}

/// Whether `cs[from..]` starts with the characters of `p`.
pub fn has_str_prefix_at(cs: &Vec<char>, from: usize, p: &str) -> (b: bool)
    requires
        from <= cs@.len(),
    ensures
        b == starts_with(cs@.skip(from as int), p@),
{
    let pc = chars_of(p);
    has_prefix_at(cs, from, &pc)
}

/// `s` without the whitespace at its start and end.
pub fn trim_str(s: &str) -> (r: String)
    ensures
        r@ == trim(s@),
{
    let cs = chars_of(s);
    let a = span(&cs, 0, CharClass::Whitespace);
    let b = rspan(&cs, a, cs.len(), CharClass::Whitespace);
    proof {
        assert(cs@.skip(0) =~= cs@);
        assert(cs@.subrange(a as int, cs@.len() as int) =~= cs@.skip(a as int));
        assert(cs@.subrange(a as int, b as int) =~= cs@.skip(a as int).take(b - a));
    }
    string_of(&cs, a, b)
}

/// Whether `a[..]` equals `b`.
pub fn chars_eq(a: &Vec<char>, b: &Vec<char>) -> (r: bool)
    ensures
        r == (a@ == b@),
{
    if a.len() != b.len() {
        return false;
    }
    let r = has_prefix_at(a, 0, b);
    assert(a@.skip(0) =~= a@);
    assert(a@.take(b@.len() as int) =~= a@);
    r
}

/// Whether the string `a` equals the string `b`.
pub fn str_eq(a: &str, b: &str) -> (r: bool)
    ensures
        r == (a@ == b@),
{
    let ac = chars_of(a);
    let bc = chars_of(b);
    chars_eq(&ac, &bc)
}

/// The first position at or after `from` where `p` occurs in `cs`.
pub fn find_at(cs: &Vec<char>, from: usize, p: &Vec<char>) -> (r: Option<usize>)
    requires
        from <= cs@.len(),
    ensures
        r matches Some(i) ==> find_from(cs@, p@, from as int) == Some(i as int),
        r is None ==> find_from(cs@, p@, from as int) is None,
{
    let mut i = from;
    while i < cs.len() && p.len() <= cs.len() - i
        invariant
            from <= i <= cs@.len(),
            find_from(cs@, p@, from as int) == find_from(cs@, p@, i as int),
        decreases cs.len() - i,
    {
        if has_prefix_at(cs, i, p) {
            return Some(i);
        }
        i += 1;
    }
    if p.len() == 0 && i == cs.len() {
        assert(cs@.skip(i as int).take(0) =~= p@);
        return Some(i);
    }
    None
}

/// Whether the character sequence is made only of whitespace.
pub fn all_whitespace(cs: &Vec<char>, from: usize, to: usize) -> (b: bool)
    requires
        from <= to <= cs@.len(),
    ensures
        b == is_blank(cs@.subrange(from as int, to as int)),
{
    let mut i = from;
    while i < to
        invariant
            from <= i <= to <= cs@.len(),
            forall|j: int| from <= j < i ==> is_ws(#[trigger] cs@[j]),
        decreases to - i,
    {
        if !is_whitespace(cs[i]) {
            assert(cs@.subrange(from as int, to as int)[i - from] == cs@[i as int]);
            return false;
        }
        i += 1;
    }
    assert forall|j: int| 0 <= j < to - from implies is_ws(
        #[trigger] cs@.subrange(from as int, to as int)[j],
    ) by {
        assert(cs@.subrange(from as int, to as int)[j] == cs@[from + j]);
    }
    true
}

/// Whether `s.trim()` is empty.
pub fn is_blank_str(s: &str) -> (b: bool)
    ensures
        b == is_blank(s@),
        b == (trim(s@).len() == 0),
{
    let cs = chars_of(s);
    let b = all_whitespace(&cs, 0, cs.len());
    assert(cs@.subrange(0, cs@.len() as int) =~= cs@);
    proof {
        lemma_trim_empty(s@);
    }
    b
}

/// Appends the decimal digits of `n` to `out`.
pub fn push_decimal(out: &mut Vec<char>, n: u64)
    ensures
        final(out)@ == old(out)@ + decimal(n as nat),
    decreases n,
{
    if n >= 10 {
        push_decimal(out, n / 10);
    }
    let d = n % 10;
    let c = if d == 0 {
        '0'
    } else if d == 1 {
        '1'
    } else if d == 2 {
        '2'
    } else if d == 3 {
        '3'
    } else if d == 4 {
        '4'
    } else if d == 5 {
        '5'
    } else if d == 6 {
        '6'
    } else if d == 7 {
        '7'
    } else if d == 8 {
        '8'
    } else {
        '9'
    };
    out.push(c);
    proof {
        if n >= 10 {
            assert(decimal(n as nat) == decimal((n / 10) as nat).push(digit_char((n % 10) as nat)));
        }
    }
}

/// The value of the ASCII digits `cs[from..to]`, if it fits in a `usize`.
pub fn decimal_value(cs: &Vec<char>, from: usize, to: usize) -> (r: Option<usize>)
    requires
        from <= to <= cs@.len(),
        forall|j: int| from <= j < to ==> is_ascii_digit(#[trigger] cs@[j]),
    ensures
        digits_value(cs@.subrange(from as int, to as int)) <= usize::MAX ==> r == Some(
            digits_value(cs@.subrange(from as int, to as int)) as usize,
        ),
        digits_value(cs@.subrange(from as int, to as int)) > usize::MAX ==> r is None,
{
    let mut v: usize = 0;
    let mut i = from;
    while i < to
        invariant
            from <= i <= to <= cs@.len(),
            forall|j: int| from <= j < to ==> is_ascii_digit(#[trigger] cs@[j]),
            v == digits_value(cs@.subrange(from as int, i as int)),
        decreases to - i,
    {
        let c = cs[i];
        assert(is_ascii_digit(cs@[i as int]));
        let d = (c as u32 - '0' as u32) as usize;
        assert(cs@.subrange(from as int, i + 1).drop_last() =~= cs@.subrange(from as int, i as int));
        assert(cs@.subrange(from as int, i + 1).last() == c);
        let next = match v.checked_mul(10) {
            Some(t) => match t.checked_add(d) {
                Some(u) => u,
                None => {
                    proof {
                        lemma_digits_value_mono(cs@.subrange(from as int, to as int), (i + 1 - from) as nat);
                        assert(cs@.subrange(from as int, to as int).take(i + 1 - from) =~= cs@.subrange(from as int, i + 1));
                    }
                    return None;
                },
            },
            None => {
                proof {
                    lemma_digits_value_mono(cs@.subrange(from as int, to as int), (i + 1 - from) as nat);
                    assert(cs@.subrange(from as int, to as int).take(i + 1 - from) =~= cs@.subrange(from as int, i + 1));
                }
                return None;
            },
        };
        v = next;
        i += 1;
    }
    Some(v)
}

/// A longer run of digits is worth at least as much as its prefix.
pub proof fn lemma_digits_value_mono(s: Seq<char>, n: nat)
    requires
        n <= s.len(),
    ensures
        digits_value(s.take(n as int)) <= digits_value(s),
    decreases s.len(),
{
    if n < s.len() {
        lemma_digits_value_mono(s.drop_last(), n);
        assert(s.drop_last().take(n as int) =~= s.take(n as int));
    } else {
        assert(s.take(n as int) =~= s);
    }
}

/// The text of each string.
pub open spec fn string_views(v: Seq<String>) -> Seq<Seq<char>> {
    v.map_values(|x: String| x@)
}

/// The text of each string slice.
pub open spec fn str_views(v: Seq<&str>) -> Seq<Seq<char>> {
    v.map_values(|x: &str| x@)
}

/// One step of [`lines_of`]: the first line and what follows it.
proof fn lemma_lines_of_step(s: Seq<char>, i: int)
    requires
        s.len() > 0,
        find(s, seq!['\n']) == Some(i),
    ensures
        0 <= i < s.len(),
        lines_of(s) == seq![strip_cr(s.take(i))] + lines_of(s.skip(i + 1)),
{
    lemma_find_from(s, seq!['\n'], 0);
}

/// The lines of `s`, as `str::lines` yields them.
pub fn split_lines(s: &str) -> (r: Vec<String>)
    ensures
        string_views(r@) == lines_of(s@),
{
    let cs = chars_of(s);
    let len = cs.len();
    let nl = vec!['\n'];
    assert(nl@ == seq!['\n']);
    let mut out: Vec<String> = Vec::new();
    let mut pos: usize = 0;
    while pos < len
        invariant
            pos <= len == cs@.len(),
            cs@ == s@,
            nl@ == seq!['\n'],
            string_views(out@) + lines_of(cs@.skip(pos as int)) == lines_of(s@),
        decreases len - pos,
    {
        let ghost rest = cs@.skip(pos as int);
        let ghost before = out@;
        match find_at(&cs, pos, &nl) {
            None => {
                proof {
                    lemma_find_from(cs@, seq!['\n'], pos as int);
                    assert forall|j: int| 0 <= j && j + 1 <= rest.len() implies !starts_with(#[trigger] rest.skip(j), seq!['\n']) by {
                        assert(rest.skip(j) =~= cs@.skip(pos + j));
                    }
                    lemma_find_from(rest, seq!['\n'], 0);
                    if find(rest, seq!['\n']) is Some {
                        let k = find(rest, seq!['\n'])->Some_0;
                        assert(rest.skip(k) =~= cs@.skip(pos + k));
                    }
                    assert(lines_of(rest) == seq![rest]);
                }
                let line = string_of(&cs, pos, len);
                assert(cs@.subrange(pos as int, len as int) =~= rest);
                out.push(line);
                assert(string_views(out@) =~= string_views(before).push(rest));
                assert(cs@.skip(len as int) =~= seq![]);
                assert(string_views(out@) + lines_of(cs@.skip(len as int)) =~= string_views(before) + seq![rest]);
                pos = len;
            },
            Some(i) => {
                proof {
                    lemma_find_from(cs@, seq!['\n'], pos as int);
                    lemma_find_from(rest, seq!['\n'], 0);
                    assert forall|j: int| 0 <= j < i - pos implies !starts_with(#[trigger] rest.skip(j), seq!['\n']) by {
                        assert(rest.skip(j) =~= cs@.skip(pos + j));
                    }
                    assert(rest.skip(i - pos) =~= cs@.skip(i as int));
                    assert(find(rest, seq!['\n']) == Some((i - pos) as int));
                    lemma_lines_of_step(rest, i - pos);
                    assert(rest.skip(i - pos + 1) =~= cs@.skip(i + 1));
                }
                let end = if i > pos && cs[i - 1] == '\r' {
                    i - 1
                } else {
                    i
                };
                let line = string_of(&cs, pos, end);
                assert(cs@.subrange(pos as int, end as int) =~= strip_cr(rest.take(i - pos)));
                out.push(line);
                assert(string_views(out@) =~= string_views(before).push(strip_cr(rest.take(i - pos))));
                assert(string_views(out@) + lines_of(cs@.skip(i + 1)) =~= string_views(before) + (seq![strip_cr(rest.take(i - pos))] + lines_of(rest.skip(i - pos + 1))));
                pos = i + 1;
            },
        }
    }
    assert(cs@.skip(pos as int) =~= seq![]);
    assert(string_views(out@) + lines_of(cs@.skip(pos as int)) =~= string_views(out@));
    out
}

/// Borrowed views of the strings of `v`, in order.
pub fn str_refs(v: &Vec<String>) -> (r: Vec<&str>)
    ensures
        str_views(r@) == string_views(v@),
{
    let mut out: Vec<&str> = Vec::new();
    let mut i: usize = 0;
    while i < v.len()
        invariant
            i <= v@.len(),
            str_views(out@) == string_views(v@.take(i as int)),
        decreases v@.len() - i,
    {
        let ghost before = out@;
        let x: &str = v[i].as_str();
        assert(x@ == v@[i as int]@);
        out.push(x);
        assert(str_views(out@) =~= str_views(before).push(x@));
        assert(string_views(v@.take(i + 1)) =~= string_views(v@.take(i as int)).push(v@[i as int]@));
        assert(str_views(out@) =~= string_views(v@.take(i + 1)));
        i += 1;
    }
    assert(v@.take(v@.len() as int) =~= v@);
    out
}

} // verus!
