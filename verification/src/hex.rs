//! Decoding the hexadecimal numbers of wire records.

use crate::number::{is_digits, parse_from, parsed};
use crate::text::chars_of;
use vstd::prelude::*;

verus! {

/// `s` without a leading `0x`, if it has one.
pub open spec fn without_prefix(s: Seq<char>) -> Seq<char> {
    if s.len() >= 2 && s[0] == '0' && s[1] == 'x' {
        s.skip(2)
    } else {
        s
    }
}

/// The number that a hexadecimal text writes, if it writes one: what
/// follows an optional `0x` is parsed in base 16.
pub open spec fn parse_hex(s: Seq<char>) -> Option<u64> {
    parsed(without_prefix(s), 16)
}

/// The number that a wire field holds: a field that does not parse counts
/// as zero.
pub open spec fn decode_hex(s: Seq<char>) -> u64 {
    match parse_hex(s) {
        Some(value) => value,
        None => 0,
    }
}

/// The prefix is optional: hexadecimal digits decode to the same number
/// with `0x` before them and without.
pub proof fn lemma_prefix_is_optional(digits: Seq<char>)
    requires
        digits.len() > 0,
        is_digits(digits, 16),
    ensures
        decode_hex(seq!['0', 'x'] + digits) == decode_hex(digits),
        parse_hex(digits) == parsed(digits, 16),
{
    let prefixed = seq!['0', 'x'] + digits;
    assert(prefixed.skip(2) =~= digits);
}

/// What is no hexadecimal number decodes to zero.
pub proof fn lemma_invalid_is_zero(s: Seq<char>)
    requires
        parse_hex(s) is None,
    ensures
        decode_hex(s) == 0,
{
}

/// Parses a hexadecimal text, with or without a leading `0x`. `None` tells
/// a text that is no hexadecimal number of at most 64 bits from one that
/// writes zero.
pub fn try_hex_to_dec(hex_str: &str) -> (value: Option<u64>)
    ensures
        value == parse_hex(hex_str@),
{
    let chars = chars_of(hex_str);
    let mut start: usize = 0;
    if chars.len() >= 2 && chars[0] == '0' && chars[1] == 'x' {
        start = 2;
    }
    assert(chars@.skip(start as int) =~= without_prefix(hex_str@));
    parse_from(&chars, start, 16)
}

/// Decodes a hexadecimal wire field. A field that is not a hexadecimal
/// number of at most 64 bits decodes to zero.
pub fn hex_to_dec(hex_str: String) -> (value: u64)
    ensures
        value == decode_hex(hex_str@),
{
    match try_hex_to_dec(hex_str.as_str()) {
        Some(value) => value,
        None => 0,
    }
}

} // verus!
