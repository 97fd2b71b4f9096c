//! Reading the requested delay out of a path segment.
//!
//! A delay is written as an optional `+` followed by one or more ASCII
//! decimal digits, and its value has to fit in a `u64`. Anything else (an
//! empty segment, a minus sign, blanks, letters, a number that is too large)
//! is no delay.

use vstd::prelude::*;
use vstd::string::StrSliceExecFns;
use vstd::string::is_ascii_spec_bytes;
use crate::decimal::{decimal, digit_char};

verus! {

/// Whether `c` is one of the ASCII digits `0` to `9`.
pub open spec fn is_digit(c: char) -> bool {
    '0' <= c && c <= '9'
}

/// The value of the digit `c`.
pub open spec fn digit_value(c: char) -> nat
    recommends
        is_digit(c),
{
    (c as u32 - '0' as u32) as nat
}

/// Whether `s` holds digits only.
pub open spec fn all_digits(s: Seq<char>) -> bool {
    forall|i: int| 0 <= i < s.len() ==> is_digit(#[trigger] s[i])
}

/// The number that the digits of `s` denote in base ten.
pub open spec fn digits_value(s: Seq<char>) -> nat
    recommends
        all_digits(s),
    decreases s.len(),
{
    if s.len() == 0 {
        0
    } else {
        10 * digits_value(s.drop_last()) + digit_value(s.last())
    }
}

/// `s` without its leading plus sign, if it has one.
pub open spec fn unsigned_part(s: Seq<char>) -> Seq<char> {
    if s.len() > 0 && s[0] == '+' {
        s.subrange(1, s.len() as int)
    } else {
        s
    }
}

/// The delay in milliseconds that the segment `s` asks for, if it asks for one.
pub open spec fn delay_of(s: Seq<char>) -> Option<u64> {
    let digits = unsigned_part(s);
    if digits.len() > 0 && all_digits(digits) && digits_value(digits) <= u64::MAX {
        Some(digits_value(digits) as u64)
    } else {
        None
    }
}

/// A prefix of a digit string never denotes more than the whole string.
proof fn lemma_prefix_value(s: Seq<char>, k: int)
    requires
        0 <= k <= s.len(),
    ensures
        digits_value(s.subrange(0, k)) <= digits_value(s),
    decreases s.len(),
{
    if k == s.len() {
        assert(s.subrange(0, k) =~= s);
    } else {
        lemma_prefix_value(s.drop_last(), k);
        assert(s.drop_last().subrange(0, k) =~= s.subrange(0, k));
    }
}

/// A segment with a character outside ASCII is no delay.
proof fn lemma_non_ascii_is_no_delay(s: Seq<char>)
    requires
        !vstd::utf8::is_ascii_chars(s),
    ensures
        delay_of(s) is None,
{
    let i = choose|i: int| 0 <= i < s.len() && !('\0' <= #[trigger] s[i] <= '\u{7f}');
    let digits = unsigned_part(s);
    if digits.len() == s.len() {
        assert(!is_digit(digits[i]));
    } else {
        assert(i > 0);
        assert(digits[i - 1] == s[i]);
        assert(!is_digit(digits[i - 1]));
    }
}

/// Reads the delay that a path segment asks for.
///
/// Returns the number of milliseconds for a segment made of an optional `+`
/// and at least one decimal digit whose value fits in a `u64`, and `None` for
/// every other segment.
pub fn parse_delay(segment: &str) -> (delay: Option<u64>)
    ensures
        delay == delay_of(segment@),
{
    broadcast use is_ascii_spec_bytes;

    if !segment.is_ascii() {
        proof {
            lemma_non_ascii_is_no_delay(segment@);
        }
        return None;
    }
    proof {
        is_ascii_spec_bytes(segment);
    }
    let n: usize = segment.as_bytes().len();
    let mut start: usize = 0;
    if n > 0 && segment.get_ascii(0) == 43u8 {
        start = 1;
    }
    let ghost digits = unsigned_part(segment@);
    if start == n {
        return None;
    }
    let mut i: usize = start;
    let mut value: u64 = 0;
    while i < n
        invariant
            start <= i <= n,
            n == segment@.len(),
            segment.is_ascii(),
            digits == unsigned_part(segment@),
            digits.len() == n - start,
            forall|j: int| 0 <= j < digits.len() ==> digits[j] == segment@[j + start],
            all_digits(digits.subrange(0, i - start)),
            value == digits_value(digits.subrange(0, i - start)),
        decreases n - i,
    {
        let byte: u8 = segment.get_ascii(i);
        let ghost c = digits[i - start];
        assert(c as u32 == byte as u32);
        if byte < 48u8 || byte > 57u8 {
            assert(!is_digit(c));
            return None;
        }
        let digit: u64 = (byte - 48u8) as u64;
        let ghost longer = digits.subrange(0, i - start + 1);
        proof {
            assert(longer.drop_last() =~= digits.subrange(0, i - start));
            assert(digits_value(longer) == 10 * value + digit);
            lemma_prefix_value(digits, i - start + 1);
            assert forall|j: int| 0 <= j < longer.len() implies is_digit(#[trigger] longer[j]) by {
                if j < i - start {
                    assert(longer[j] == digits.subrange(0, i - start)[j]);
                }
            }
        }
        if value > (u64::MAX - digit) / 10 {
            return None;
        }
        value = value * 10 + digit;
        i += 1;
    }
    assert(digits.subrange(0, n - start) =~= digits);
    Some(value)
}

/// The digits of a decimal notation, read back, give the number again.
pub proof fn lemma_decimal_reads_back(n: nat)
    ensures
        decimal(n).len() > 0,
        all_digits(decimal(n)),
        digits_value(decimal(n)) == n,
    decreases n,
{
    let s = decimal(n);
    if n < 10 {
        assert(s.drop_last() =~= Seq::<char>::empty());
        assert(digits_value(s.drop_last()) == 0);
        assert(digit_value(digit_char(n)) == n);
    } else {
        lemma_decimal_reads_back(n / 10);
        assert(s.drop_last() =~= decimal(n / 10));
        assert(s.last() == digit_char(n % 10));
        assert(digit_value(digit_char(n % 10)) == n % 10);
        assert forall|j: int| 0 <= j < s.len() implies is_digit(#[trigger] s[j]) by {
            if j < s.len() - 1 {
                assert(s[j] == decimal(n / 10)[j]);
            }
        }
    }
}

/// Every delay that fits in a `u64`, written in decimal notation, is read
/// as that delay.
pub proof fn lemma_decimal_is_accepted(n: u64)
    ensures
        delay_of(decimal(n as nat)) == Some(n),
{
    lemma_decimal_reads_back(n as nat);
    assert(is_digit(decimal(n as nat)[0]));
}

/// A segment that starts with a minus sign is no delay.
pub proof fn lemma_negative_is_rejected(s: Seq<char>)
    requires
        s.len() > 0,
        s[0] == '-',
    ensures
        delay_of(s) is None,
{
    assert(!is_digit(unsigned_part(s)[0]));
}

/// A segment that holds anything but digits after its optional plus sign,
/// or nothing at all, is no delay.
pub proof fn lemma_non_integer_is_rejected(s: Seq<char>)
    requires
        unsigned_part(s).len() == 0 || !all_digits(unsigned_part(s)),
    ensures
        delay_of(s) is None,
{
}

} // verus!
