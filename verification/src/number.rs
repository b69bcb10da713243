//! Unsigned decimal numbers as a header value writes them.

use crate::text::chars_of;
use vstd::prelude::*;

verus! {

/// Whether `c` is one of the ASCII digits `0` to `9`.
pub open spec fn is_digit(c: char) -> bool {
    '0' <= c <= '9'
}

/// The number that a digit stands for.
pub open spec fn digit_value(c: char) -> nat
    recommends
        is_digit(c),
{
    (c as u32 - '0' as u32) as nat
}

/// Whether `s` holds digits only.
pub open spec fn all_digits(s: Seq<char>) -> bool {
    forall|i: int| 0 <= i < s.len() ==> is_digit(#[trigger] s[i])
}

/// The number that a sequence of digits writes in base ten.
pub open spec fn decimal_value(digits: Seq<char>) -> nat
    recommends
        all_digits(digits),
    decreases digits.len(),
{
    if digits.len() == 0 {
        0
    } else {
        10 * decimal_value(digits.drop_last()) + digit_value(digits.last())
    }
}

/// `s` without the one `+` that may stand in front of the digits.
pub open spec fn without_plus_sign(s: Seq<char>) -> Seq<char> {
    if s.len() > 0 && s.first() == '+' {
        s.drop_first()
    } else {
        s
    }
}

/// The `u32` that `s` writes: an optional `+`, then at least one digit and
/// nothing else, with a value that fits. No whitespace is skipped and
/// leading zeros are allowed.
pub open spec fn parsed_u32(s: Seq<char>) -> Option<u32> {
    let digits = without_plus_sign(s);
    if digits.len() > 0 && all_digits(digits) && decimal_value(digits) <= u32::MAX {
        Some(decimal_value(digits) as u32)
    } else {
        None
    }
}

/// A number is at least what any prefix of its digits writes.
pub proof fn lemma_decimal_value_grows(digits: Seq<char>, n: int)
    requires
        0 <= n <= digits.len(),
    ensures
        decimal_value(digits.take(n)) <= decimal_value(digits),
    decreases digits.len() - n,
{
    if n < digits.len() {
        lemma_decimal_value_grows(digits.drop_last(), n);
        assert(digits.drop_last().take(n) =~= digits.take(n));
    } else {
        assert(digits.take(n) =~= digits);
    }
}

/// Reads an unsigned decimal number.
pub fn parse_u32(s: &str) -> (value: Option<u32>)
    ensures
        value == parsed_u32(s@),
{
    let chars = chars_of(s);
    let len = chars.len();
    let start: usize = if len > 0 && chars[0] == '+' {
        1
    } else {
        0
    };
    if start == len {
        return None;
    }
    let ghost digits = without_plus_sign(s@);
    assert(digits =~= chars@.skip(start as int));
    let mut total: u64 = 0;
    let mut i: usize = start;
    while i < len
        invariant
            start <= i <= len == chars.len(),
            digits == chars@.skip(start as int),
            digits == without_plus_sign(s@),
            all_digits(digits.take(i - start)),
            total == decimal_value(digits.take(i - start)),
            total <= u32::MAX,
        decreases len - i,
    {
        let c: char = chars[i];
        if c < '0' || c > '9' {
            assert(!is_digit(digits[i - start]));
            return None;
        }
        let ghost before = digits.take(i - start);
        let ghost upto = digits.take(i + 1 - start);
        assert(upto.drop_last() =~= before);
        assert(upto.last() == chars@[i as int]);
        assert forall|j: int| 0 <= j < upto.len() implies is_digit(#[trigger] upto[j]) by {
            if j < before.len() {
                assert(upto[j] == before[j]);
            } else {
                assert(upto[j] == chars@[i as int]);
            }
        }
        total = total * 10 + (c as u32 - 48) as u64;
        assert(total == decimal_value(upto));
        if total > 0xFFFF_FFFF {
            proof {
                lemma_decimal_value_grows(digits, i + 1 - start);
            }
            return None;
        }
        i += 1;
    }
    assert(digits.take(len - start) =~= digits);
    Some(total as u32)
}

} // verus!
