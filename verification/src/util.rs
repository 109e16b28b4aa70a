//! Conversions between stack values and grid cells.
//!
//! A cell holds one character and the stack holds 64-bit integers. Going
//! either way keeps the low eight bits: cells carry codes 0 to 255.

use vstd::prelude::*;

verus! {

/// The character whose code is `num` modulo 256.
pub open spec fn spec_i64_to_char(num: i64) -> char {
    ((num as int) % 256) as char
}

/// The code of `ch` modulo 256.
pub open spec fn spec_char_to_i64(ch: char) -> i64 {
    ((ch as int) % 256) as i64
}

/// The position along an axis that a stack value names: the value itself
/// where it fits the machine word, and the value wrapped to the word's width
/// where it does not.
pub open spec fn spec_coordinate(num: i64) -> usize {
    num as usize
}

/// The number that a digit instruction pushes: the value of `ch` read as a
/// hexadecimal digit, if it is one.
pub open spec fn spec_hex_value(ch: char) -> Option<i64> {
    if '0' <= ch <= '9' {
        Some((ch as int - '0' as int) as i64)
    } else if 'a' <= ch <= 'f' {
        Some((ch as int - 'a' as int + 10) as i64)
    } else if 'A' <= ch <= 'F' {
        Some((ch as int - 'A' as int + 10) as i64)
    } else {
        None
    }
}

/// Reads `ch` as a hexadecimal digit, in either case.
#[verifier::when_used_as_spec(spec_hex_value)]
pub fn hex_value(ch: char) -> (value: Option<i64>)
    ensures
        value == spec_hex_value(ch),
        value matches Some(v) ==> 0 <= v < 16,
{
    let code: u32 = ch as u32;
    if 48 <= code && code <= 57 {
        Some((code - 48) as i64)
    } else if 97 <= code && code <= 102 {
        Some((code - 87) as i64)
    } else if 65 <= code && code <= 70 {
        Some((code - 55) as i64)
    } else {
        None
    }
}

/// Turns a stack value into the character whose code is `num` modulo 256.
#[verifier::when_used_as_spec(spec_i64_to_char)]
pub fn i64_to_char(num: i64) -> (ch: char)
    ensures
        ch == spec_i64_to_char(num),
        ch as int == (num as int) % 256,
{
    let byte: u8 = #[verifier::truncate] (num as u8);
    assert(byte as int == (num as int) % 256) by (bit_vector)
        requires
            byte == num as u8,
    ;
    byte as char
}

/// Turns a character into a stack value: its code modulo 256.
#[verifier::when_used_as_spec(spec_char_to_i64)]
pub fn char_to_i64(ch: char) -> (num: i64)
    ensures
        num == spec_char_to_i64(ch),
        num as int == (ch as int) % 256,
{
    let code: u32 = ch as u32;
    let byte: u8 = #[verifier::truncate] (code as u8);
    assert(byte == code % 256) by (bit_vector)
        requires
            byte == code as u8,
    ;
    byte as i64
}

/// Turns a stack value into a position along an axis of the grid.
#[verifier::when_used_as_spec(spec_coordinate)]
pub fn coordinate(num: i64) -> (position: usize)
    ensures
        position == spec_coordinate(num),
        0 <= num <= usize::MAX ==> position == num,
{
    #[verifier::truncate]
    (num as usize)
}

} // verus!
