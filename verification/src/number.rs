//! Reading unsigned decimal numbers as `str::parse` does, with its error
//! messages.
use vstd::prelude::*;

use crate::text::{
    chars_of, decimal, decimal_value, digit_char, digits_value, in_class, is_ascii_digit, lemma_span_len,
    lemma_span_len_exact, span, span_len, CharClass,
};

verus! {

/// The message for an empty number.
pub const EMPTY_NUMBER: &'static str = "cannot parse integer from empty string";

/// The message for a character that is not a digit.
pub const INVALID_DIGIT: &'static str = "invalid digit found in string";

/// The message for a number above the largest value of its type.
pub const NUMBER_TOO_LARGE: &'static str = "number too large to fit in target type";

/// The digits of an unsigned number: what follows a leading `+`.
pub open spec fn unsigned_digits(s: Seq<char>) -> Seq<char> {
    if s.len() > 0 && s[0] == '+' {
        s.skip(1)
    } else {
        s
    }
}

/// The value of `s` read as an unsigned number no larger than `max`: an
/// optional `+` and one or more ASCII digits.
pub open spec fn parse_unsigned(s: Seq<char>, max: nat) -> Option<nat> {
    let d = unsigned_digits(s);
    if d.len() > 0 && span_len(d, CharClass::AsciiDigit) == d.len() && digits_value(d) <= max {
        Some(digits_value(d))
    } else {
        None
    }
}

/// Why `s` does not read as an unsigned number no larger than `max`: it is
/// empty; the digits before the first other character already exceed `max`;
/// or there is another character (or no digit after the `+`).
pub open spec fn unsigned_error(s: Seq<char>, max: nat) -> Seq<char> {
    let d = unsigned_digits(s);
    if s.len() == 0 {
        EMPTY_NUMBER@
    } else if digits_value(d.take(span_len(d, CharClass::AsciiDigit) as int)) > max {
        NUMBER_TOO_LARGE@
    } else {
        INVALID_DIGIT@
    }
}

/// Reads `s` as an unsigned number no larger than `max`, or says why it
/// does not read as one.
pub fn parse_unsigned_str(s: &str, max: u32) -> (r: Result<u32, String>)
    ensures
        match parse_unsigned(s@, max as nat) {
            Some(v) => r == Ok::<u32, String>(v as u32),
            None => r matches Err(e) && e@ == unsigned_error(s@, max as nat),
        },
{
    let cs = chars_of(s);
    let n = cs.len();
    if n == 0 {
        return Err(EMPTY_NUMBER.to_owned());
    }
    let from: usize = if cs[0] == '+' {
        1
    } else {
        0
    };
    let ghost d = unsigned_digits(s@);
    assert(d =~= cs@.skip(from as int));
    let k = span(&cs, from, CharClass::AsciiDigit);
    proof {
        lemma_span_len(d, CharClass::AsciiDigit);
        assert forall|j: int| from <= j < k implies crate::text::is_ascii_digit(#[trigger] cs@[j]) by {
            assert(cs@[j] == d[j - from]);
        }
        assert(cs@.subrange(from as int, k as int) =~= d.take(k - from));
        if k == n {
            assert(d.take(k - from) =~= d);
        }
    }
    let too_large = match decimal_value(&cs, from, k) {
        None => true,
        Some(v) => v > max as usize,
    };
    if too_large {
        return Err(NUMBER_TOO_LARGE.to_owned());
    }
    if k < n || k == from {
        return Err(INVALID_DIGIT.to_owned());
    }
    match decimal_value(&cs, from, k) {
        Some(v) => Ok(v as u32),
        None => Err(NUMBER_TOO_LARGE.to_owned()),
    }
}

proof fn lemma_digit_char(d: nat)
    requires
        d < 10,
    ensures
        is_ascii_digit(digit_char(d)),
        (digit_char(d) as u32 - '0' as u32) == d,
{
}

/// The decimal text of a number is made of digits that read back as it.
pub proof fn lemma_decimal_digits(n: nat)
    ensures
        decimal(n).len() > 0,
        forall|j: int| 0 <= j < decimal(n).len() ==> is_ascii_digit(#[trigger] decimal(n)[j]),
        digits_value(decimal(n)) == n,
    decreases n,
{
    if n < 10 {
        lemma_digit_char(n);
        let e: Seq<char> = seq![];
        assert(decimal(n).drop_last() =~= e);
        assert(digits_value(e) == 0);
        assert(digits_value(decimal(n)) == digits_value(e) * 10 + (digit_char(n) as u32 - '0' as u32) as nat);
    } else {
        lemma_decimal_digits(n / 10);
        lemma_digit_char(n % 10);
        let d = decimal(n);
        assert(d.drop_last() =~= decimal(n / 10));
        assert(d.last() == digit_char(n % 10));
        assert(digits_value(d) == digits_value(decimal(n / 10)) * 10 + (digit_char(n % 10) as u32 - '0' as u32) as nat);
        vstd::arithmetic::div_mod::lemma_fundamental_div_mod(n as int, 10);
        assert forall|j: int| 0 <= j < d.len() implies is_ascii_digit(#[trigger] d[j]) by {
            if j < d.len() - 1 {
                assert(d[j] == decimal(n / 10)[j]);
            }
        }
    }
}

/// A number no larger than `max`, written in decimal, reads back as itself.
pub proof fn law_decimal_reads_back(n: nat, max: nat)
    requires
        n <= max,
    ensures
        parse_unsigned(decimal(n), max) == Some(n),
{
    lemma_decimal_digits(n);
    let d = decimal(n);
    assert(in_class(CharClass::AsciiDigit, d[0]));
    assert(unsigned_digits(d) == d);
    assert forall|j: int| 0 <= j < d.len() implies in_class(CharClass::AsciiDigit, #[trigger] d[j]) by {
        assert(is_ascii_digit(d[j]));
    }
    lemma_span_len_exact(d, CharClass::AsciiDigit, d.len() as int);
}

} // verus!
