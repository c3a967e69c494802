//! Decimal rendering of integers, for messages shown to the user.

use vstd::prelude::*;

verus! {

/// The ASCII digit for `d` (0 to 9).
pub open spec fn digit_char(d: nat) -> char {
    if d == 0 {
        '0'
    } else if d == 1 {
        '1'
    } else if d == 2 {
        '2'
    } else if d == 3 {
        '3'
    } else if d == 4 {
        '4'
    } else if d == 5 {
        '5'
    } else if d == 6 {
        '6'
    } else if d == 7 {
        '7'
    } else if d == 8 {
        '8'
    } else {
        '9'
    }
}

/// The decimal representation of `n`, without leading zeros.
pub open spec fn decimal_text(n: nat) -> Seq<char>
    decreases n,
{
    if n < 10 {
        seq![digit_char(n)]
    } else {
        decimal_text(n / 10).push(digit_char(n % 10))
    }
}

/// Renders `n` in decimal with `ToString` (the `Display` implementation of
/// `usize`, which the standard library documents as the decimal digits of
/// the number without leading zeros).
#[verifier::external_body]
pub(crate) fn usize_text(n: usize) -> (text: String)
    ensures
        text@ == decimal_text(n as nat),
{
    n.to_string()
}

/// The Unicode `White_Space` characters, which `str::trim` removes.
pub open spec fn is_whitespace(c: char) -> bool {
    let v = c as u32;
    ||| 9 <= v <= 13
    ||| v == 32
    ||| v == 0x85
    ||| v == 0xA0
    ||| v == 0x1680
    ||| 0x2000 <= v <= 0x200A
    ||| v == 0x2028
    ||| v == 0x2029
    ||| v == 0x202F
    ||| v == 0x205F
    ||| v == 0x3000
}

/// `s` without its leading whitespace.
pub open spec fn trim_start_spec(s: Seq<char>) -> Seq<char>
    decreases s.len(),
{
    if s.len() > 0 && is_whitespace(s[0]) {
        trim_start_spec(s.drop_first())
    } else {
        s
    }
}

/// `s` without its trailing whitespace.
pub open spec fn trim_end_spec(s: Seq<char>) -> Seq<char>
    decreases s.len(),
{
    if s.len() > 0 && is_whitespace(s.last()) {
        trim_end_spec(s.drop_last())
    } else {
        s
    }
}

/// `s` without leading and trailing whitespace.
pub open spec fn trim_spec(s: Seq<char>) -> Seq<char> {
    trim_end_spec(trim_start_spec(s))
}

/// `str::trim`: the slice with leading and trailing whitespace removed,
/// whitespace being the Unicode `White_Space` characters, as the standard
/// library documents.
#[verifier::external_body]
pub(crate) fn trim_text(s: &str) -> (trimmed: &str)
    ensures
        trimmed@ == trim_spec(s@),
{
    s.trim()
}

/// `c` is an ASCII decimal digit.
pub open spec fn is_digit(c: char) -> bool {
    '0' <= c <= '9'
}

/// The number written by the decimal digits `digits`.
pub open spec fn digits_value(digits: Seq<char>) -> int
    decreases digits.len(),
{
    if digits.len() == 0 {
        0
    } else {
        digits_value(digits.drop_last()) * 10 + (digits.last() as int - '0' as int)
    }
}

/// What parsing `s` as a `usize` gives, as `str::parse::<usize>` does it:
/// an optional leading `+`, then one or more ASCII digits whose value fits
/// in a `usize`; anything else is an error.
pub open spec fn parse_usize_spec(s: Seq<char>) -> Option<usize> {
    let digits = unsigned_part(s);
    if digits.len() > 0 && all_digits(digits) && digits_value(digits) <= usize::MAX {
        Some(digits_value(digits) as usize)
    } else {
        None
    }
}

/// `s` without a leading `+` sign.
pub open spec fn unsigned_part(s: Seq<char>) -> Seq<char> {
    if s.len() > 0 && s[0] == '+' {
        s.drop_first()
    } else {
        s
    }
}

/// Every character of `s` is an ASCII digit.
pub open spec fn all_digits(s: Seq<char>) -> bool {
    forall|i: int| 0 <= i < s.len() ==> is_digit(#[trigger] s[i])
}

proof fn lemma_digits_value_nonnegative(digits: Seq<char>)
    requires
        forall|i: int| 0 <= i < digits.len() ==> is_digit(#[trigger] digits[i]),
    ensures
        digits_value(digits) >= 0,
    decreases digits.len(),
{
    if digits.len() > 0 {
        lemma_digits_value_nonnegative(digits.drop_last());
    }
}

proof fn lemma_digits_value_grows(digits: Seq<char>, i: int)
    requires
        0 <= i <= digits.len(),
        forall|j: int| 0 <= j < digits.len() ==> is_digit(#[trigger] digits[j]),
    ensures
        digits_value(digits.subrange(0, i)) <= digits_value(digits),
    decreases digits.len() - i,
{
    if i < digits.len() {
        lemma_digits_value_grows(digits, i + 1);
        let prefix = digits.subrange(0, i + 1);
        assert(prefix.drop_last() =~= digits.subrange(0, i));
        assert forall|j: int| 0 <= j < prefix.len() implies is_digit(#[trigger] prefix[j]) by {
            assert(prefix[j] == digits[j]);
        }
        lemma_digits_value_nonnegative(prefix.drop_last());
    } else {
        assert(digits.subrange(0, i) =~= digits);
    }
}

/// Parses a decimal `usize` exactly as `str::parse::<usize>` does: an
/// optional `+` followed by ASCII digits, without overflow.
pub fn parse_usize(s: &str) -> (value: Option<usize>)
    ensures
        value == parse_usize_spec(s@),
{
    let len = s.unicode_len();
    let mut start: usize = 0;
    if len > 0 && s.get_char(0) == '+' {
        start = 1;
    }
    let ghost digits = unsigned_part(s@);
    assert(digits =~= s@.subrange(start as int, len as int));
    if start == len {
        return None;
    }
    let mut value: usize = 0;
    let mut i: usize = start;
    while i < len
        invariant
            len == s@.len(),
            start <= i <= len,
            digits =~= s@.subrange(start as int, len as int),
            digits == unsigned_part(s@),
            forall|j: int| 0 <= j < i - start ==> is_digit(#[trigger] digits[j]),
            value == digits_value(digits.subrange(0, i - start)),
        decreases len - i,
    {
        let c = s.get_char(i);
        assert(digits[i - start] == c);
        if !('0' <= c && c <= '9') {
            assert(!is_digit(digits[i - start]));

            return None;
        }
        let d = (c as u32 - '0' as u32) as usize;
        let ghost prefix = digits.subrange(0, i - start + 1);
        assert(prefix.drop_last() =~= digits.subrange(0, i - start));
        assert(prefix.last() == c);
        match value.checked_mul(10) {
            Some(tens) => {
                match tens.checked_add(d) {
                    Some(next) => {
                        value = next;
                    },
                    None => {
                        proof {
                            assert(digits_value(prefix) == value * 10 + d);
                            assert(forall|j: int| 0 <= j < prefix.len() ==> is_digit(#[trigger] prefix[j]));
                            if all_digits(digits) {
                                lemma_digits_value_grows(digits, i - start + 1);
                            }
                        }
                        return None;
                    },
                }
            },
            None => {
                proof {
                    assert(forall|j: int| 0 <= j < prefix.len() ==> is_digit(#[trigger] prefix[j]));
                    lemma_digits_value_nonnegative(prefix.drop_last());
                    if all_digits(digits) {
                        lemma_digits_value_grows(digits, i - start + 1);
                    }
                }
                return None;
            },
        }
        i = i + 1;
    }
    assert(digits.subrange(0, len - start) =~= digits);
    Some(value)
}

} // verus!
