//! Decimal numerals: reading integers from text, and writing them.

use crate::text::{char_is_digit, is_digit};
use vstd::prelude::*;

verus! {

/// The value of a decimal digit.
pub open spec fn digit_value(c: char) -> int {
    (c as u32) - 0x30
}

/// The decimal digit of a value below ten.
pub open spec fn digit_char(d: int) -> char {
    ((0x30 + d) as u8) as char
}

/// `s` holds decimal digits only.
pub open spec fn all_digits(s: Seq<char>) -> bool {
    forall|i: int| 0 <= i < s.len() ==> is_digit(#[trigger] s[i])
}

/// The number that the digits of `s` write, in base ten.
pub open spec fn decimal_value(s: Seq<char>) -> int
    decreases s.len(),
{
    if s.len() == 0 {
        0
    } else {
        decimal_value(s.drop_last()) * 10 + digit_value(s.last())
    }
}

/// The number that `s` writes, as long as `s` is one or more digits and the
/// number is at most `limit`.
pub open spec fn magnitude(s: Seq<char>, limit: int) -> Option<int> {
    if s.len() > 0 && all_digits(s) && decimal_value(s) <= limit {
        Some(decimal_value(s))
    } else {
        None
    }
}

/// The unsigned number up to `max` that `s` writes: digits, after an optional `+`.
pub open spec fn unsigned_reading(s: Seq<char>, max: int) -> Option<int> {
    if s.len() > 0 && s[0] == '+' {
        magnitude(s.skip(1), max)
    } else {
        magnitude(s, max)
    }
}

/// The signed number from `-bound - 1` to `bound` that `s` writes: digits,
/// after an optional `+` or `-`.
pub open spec fn signed_reading(s: Seq<char>, bound: int) -> Option<int> {
    if s.len() > 0 && s[0] == '-' {
        match magnitude(s.skip(1), bound + 1) {
            Some(m) => Some(-m),
            None => None,
        }
    } else {
        unsigned_reading(s, bound)
    }
}

/// The digits that write `n` in base ten, without leading zeros.
pub open spec fn decimal_digits(n: nat) -> Seq<char>
    decreases n,
{
    if n < 10 {
        seq![digit_char(n as int)]
    } else {
        decimal_digits(n / 10).push(digit_char((n % 10) as int))
    }
}

/// A longer numeral is worth no less than any of its beginnings.
proof fn lemma_value_grows(s: Seq<char>, k: int)
    requires
        all_digits(s),
        0 <= k <= s.len(),
    ensures
        0 <= decimal_value(s.take(k)) <= decimal_value(s),
    decreases s.len() - k,
{
    if k == s.len() {
        assert(s.take(k) == s);
        lemma_value_nonnegative(s);
    } else {
        lemma_value_grows(s, k + 1);
        assert(s.take(k + 1).drop_last() == s.take(k));
        lemma_value_nonnegative(s.take(k));
    }
}

proof fn lemma_value_nonnegative(s: Seq<char>)
    requires
        all_digits(s),
    ensures
        decimal_value(s) >= 0,
    decreases s.len(),
{
    if s.len() > 0 {
        lemma_value_nonnegative(s.drop_last());
    }
}

/// Reads the digits `text[from..]` as a number of at most `limit`.
fn read_magnitude(text: &Vec<char>, from: usize, limit: u64) -> (value: Option<u64>)
    requires
        from <= text.len(),
    ensures
        value is Some <==> magnitude(text@.skip(from as int), limit as int) is Some,
        value matches Some(v) ==> v <= limit && magnitude(text@.skip(from as int), limit as int)
            == Some(v as int),
{
    let ghost digits = text@.skip(from as int);
    if from == text.len() {
        return None;
    }
    let mut acc: u128 = 0;
    let mut i: usize = from;
    while i < text.len()
        invariant
            from <= i <= text.len(),
            digits == text@.skip(from as int),
            all_digits(digits.take(i - from)),
            acc == decimal_value(digits.take(i - from)),
            acc <= limit,
        decreases text.len() - i,
    {
        let c = text[i];
        let n: u32 = c as u32;
        proof {
            assert(digits.take(i - from + 1).drop_last() == digits.take(i - from));
            assert(digits.take(i - from + 1).last() == c);
        }
        if !char_is_digit(c) {
            return None;
        }
        acc = acc * 10 + (n - 0x30) as u128;
        if acc > limit as u128 {
            proof {
                if all_digits(digits) {
                    lemma_value_grows(digits, i - from + 1);
                }
            }
            return None;
        }
        i += 1;
    }
    assert(digits.take(text.len() - from) == digits);
    Some(acc as u64)
}

/// Reads `text` as a `u32`, as the standard library reads one from a string:
/// digits after an optional `+`, and nothing else.
pub fn parse_u32(text: &Vec<char>) -> (value: Option<u32>)
    ensures
        value is Some <==> unsigned_reading(text@, u32::MAX as int) is Some,
        value matches Some(v) ==> unsigned_reading(text@, u32::MAX as int) == Some(v as int),
{
    let from: usize = if text.len() > 0 && text[0] == '+' {
        1
    } else {
        0
    };
    assert(text@.skip(0) == text@);
    match read_magnitude(text, from, 0xFFFF_FFFF) {
        Some(n) => Some(n as u32),
        None => None,
    }
}

/// Reads `text` as a `u64`: digits after an optional `+`, and nothing else.
pub fn parse_u64(text: &Vec<char>) -> (value: Option<u64>)
    ensures
        value is Some <==> unsigned_reading(text@, u64::MAX as int) is Some,
        value matches Some(v) ==> unsigned_reading(text@, u64::MAX as int) == Some(v as int),
{
    let from: usize = if text.len() > 0 && text[0] == '+' {
        1
    } else {
        0
    };
    assert(text@.skip(0) == text@);
    read_magnitude(text, from, u64::MAX)
}

/// Reads `text` as an `i64`: digits after an optional `+` or `-`, and
/// nothing else.
pub fn parse_i64(text: &Vec<char>) -> (value: Option<i64>)
    ensures
        value is Some <==> signed_reading(text@, i64::MAX as int) is Some,
        value matches Some(v) ==> signed_reading(text@, i64::MAX as int) == Some(v as int),
{
    assert(text@.skip(0) == text@);
    if text.len() > 0 && text[0] == '-' {
        match read_magnitude(text, 1, 0x8000_0000_0000_0000) {
            Some(m) => {
                if m == 0x8000_0000_0000_0000 {
                    Some(i64::MIN)
                } else {
                    Some(-(m as i64))
                }
            },
            None => None,
        }
    } else {
        let from: usize = if text.len() > 0 && text[0] == '+' {
            1
        } else {
            0
        };
        match read_magnitude(text, from, 0x7FFF_FFFF_FFFF_FFFF) {
            Some(n) => Some(n as i64),
            None => None,
        }
    }
}

/// Appends to `out` the digits that write `n` in base ten.
pub fn push_decimal(out: &mut Vec<char>, n: u64)
    ensures
        final(out)@ == old(out)@ + decimal_digits(n as nat),
    decreases n,
{
    if n >= 10 {
        push_decimal(out, n / 10);
    }
    let d: u8 = (n % 10) as u8;
    out.push((0x30 + d) as char);
}

} // verus!
