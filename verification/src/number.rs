//! Parsing unsigned numbers written in a given base.

use crate::text::chars_of;
use vstd::prelude::*;

verus! {

/// The value of `c` as a digit, whatever the base: `0` to `9` count 0 to 9,
/// the letters `a` to `z`, in either case, count 10 to 35.
pub open spec fn symbol_value(c: char) -> Option<nat> {
    if '0' <= c <= '9' {
        Some((c as nat - '0' as nat) as nat)
    } else if 'a' <= c <= 'z' {
        Some((c as nat - 'a' as nat + 10) as nat)
    } else if 'A' <= c <= 'Z' {
        Some((c as nat - 'A' as nat + 10) as nat)
    } else {
        None
    }
}

/// Whether `c` is a digit of base `radix`.
pub open spec fn is_digit(c: char, radix: nat) -> bool {
    symbol_value(c) matches Some(value) && value < radix
}

/// Every character of `s` is a digit of base `radix`.
pub open spec fn is_digits(s: Seq<char>, radix: nat) -> bool {
    forall|i: int| 0 <= i < s.len() ==> is_digit(#[trigger] s[i], radix)
}

/// The number that the digits of `s` write in base `radix`, most
/// significant digit first.
pub open spec fn digits_value(s: Seq<char>, radix: nat) -> nat
    decreases s.len(),
{
    if s.len() == 0 {
        0
    } else {
        radix * digits_value(s.drop_last(), radix) + symbol_value(s.last()).unwrap()
    }
}

/// `s` without a leading plus sign, if it has one and more behind it.
pub open spec fn without_sign(s: Seq<char>) -> Seq<char> {
    if s.len() >= 2 && s[0] == '+' {
        s.skip(1)
    } else {
        s
    }
}

/// The number that `s` writes in base `radix`: an optional plus sign and
/// then at least one digit, nothing else, with a value that fits 64 bits.
pub open spec fn parsed(s: Seq<char>, radix: nat) -> Option<u64> {
    let digits = without_sign(s);
    if digits.len() > 0 && is_digits(digits, radix) && digits_value(digits, radix) <= u64::MAX {
        Some(digits_value(digits, radix) as u64)
    } else {
        None
    }
}

/// No digits write zero, and a digit written behind a number multiplies
/// the number by the base and adds the digit's value.
pub proof fn lemma_digits_value_step(digits: Seq<char>, digit: char, radix: nat)
    ensures
        digits_value(Seq::empty(), radix) == 0,
        digits_value(digits.push(digit), radix) == radix * digits_value(digits, radix)
            + symbol_value(digit).unwrap(),
{
    assert(digits.push(digit).drop_last() =~= digits);
}

/// A number never gets smaller by writing more digits behind it.
pub proof fn lemma_digits_value_prefix(s: Seq<char>, radix: nat, k: int)
    requires
        0 <= k <= s.len(),
        radix >= 1,
    ensures
        digits_value(s.take(k), radix) <= digits_value(s, radix),
    decreases s.len() - k,
{
    if k == s.len() {
        assert(s.take(k) =~= s);
    } else {
        lemma_digits_value_prefix(s.drop_last(), radix, k);
        assert(s.drop_last().take(k) =~= s.take(k));
        assert(digits_value(s.drop_last(), radix) <= radix * digits_value(s.drop_last(), radix))
            by (nonlinear_arith)
            requires
                radix >= 1,
        ;
    }
}

/// The value of `c` as a digit of base `radix`, if it is one.
fn digit_of(c: char, radix: u32) -> (digit: Option<u64>)
    requires
        radix <= 36,
    ensures
        digit is Some <==> is_digit(c, radix as nat),
        digit is Some ==> digit->0 == symbol_value(c)->0,
{
    let value: u32 = if '0' <= c && c <= '9' {
        c as u32 - '0' as u32
    } else if 'a' <= c && c <= 'z' {
        c as u32 - 'a' as u32 + 10
    } else if 'A' <= c && c <= 'Z' {
        c as u32 - 'A' as u32 + 10
    } else {
        return None;
    };
    if value < radix {
        Some(value as u64)
    } else {
        None
    }
}

/// Parses what `chars` hold from position `start` on as a number in base
/// `radix`.
pub(crate) fn parse_from(chars: &Vec<char>, start: usize, radix: u32) -> (number: Option<u64>)
    requires
        start <= chars@.len(),
        2 <= radix <= 36,
    ensures
        number == parsed(chars@.skip(start as int), radix as nat),
{
    let ghost text = chars@.skip(start as int);
    let mut first: usize = start;
    if chars.len() - start >= 2 && chars[start] == '+' {
        first = start + 1;
    }
    let ghost digits = chars@.skip(first as int);
    if first == chars.len() {
        return None;
    }
    let mut value: u64 = 0;
    let mut i: usize = first;
    while i < chars.len()
        invariant
            first <= i <= chars.len(),
            2 <= radix <= 36,
            text == chars@.skip(start as int),
            digits == chars@.skip(first as int),
            digits == without_sign(text),
            is_digits(digits.take(i - first), radix as nat),
            value == digits_value(digits.take(i - first), radix as nat),
        decreases chars.len() - i,
    {
        let ghost k = i - first;
        assert(digits.take(k + 1).drop_last() =~= digits.take(k));
        assert(digits.take(k + 1).last() == chars@[i as int]);
        let digit = match digit_of(chars[i], radix) {
            Some(digit) => digit,
            None => {
                return None;
            },
        };
        let shifted = match value.checked_mul(radix as u64) {
            Some(shifted) => shifted,
            None => {
                proof {
                    lemma_digits_value_prefix(digits, radix as nat, k + 1);
                }
                return None;
            },
        };
        value = match shifted.checked_add(digit) {
            Some(sum) => sum,
            None => {
                proof {
                    lemma_digits_value_prefix(digits, radix as nat, k + 1);
                }
                return None;
            },
        };
        assert forall|j: int| 0 <= j < k + 1 implies is_digit(
            #[trigger] digits.take(k + 1)[j],
            radix as nat,
        ) by {
            if j < k {
                assert(digits.take(k + 1)[j] == digits.take(k)[j]);
            }
        }
        i = i + 1;
    }
    assert(digits.take(digits.len() as int) =~= digits);
    Some(value)
}

/// Parses `text` as a number in base `radix`.
pub fn parse_number(text: &str, radix: u32) -> (number: Option<u64>)
    requires
        2 <= radix <= 36,
    ensures
        number == parsed(text@, radix as nat),
{
    let chars = chars_of(text);
    assert(chars@.skip(0) =~= chars@);
    parse_from(&chars, 0, radix)
}

} // verus!
