//! Lowercase hexadecimal digits and the bytes they spell.

use vstd::prelude::*;

verus! {

/// Whether `c` is one of the sixteen accepted digits, `0`-`9` or `a`-`f`.
pub open spec fn is_hex_digit(c: char) -> bool {
    ('0' <= c && c <= '9') || ('a' <= c && c <= 'f')
}

/// The value of the digit `c`; meaningful where `is_hex_digit(c)`.
pub open spec fn digit_value(c: char) -> int {
    if '0' <= c && c <= '9' {
        c as int - '0' as int
    } else {
        c as int - 'a' as int + 10
    }
}

/// The digit that spells `d`; meaningful where `0 <= d < 16`.
pub open spec fn digit_char(d: int) -> char {
    if d < 10 {
        (d + '0' as int) as char
    } else {
        (d - 10 + 'a' as int) as char
    }
}

/// The value that the digits `c1` and `c2` spell, `c1` being the high one;
/// meaningful where both are digits.
pub open spec fn hex_value(c1: char, c2: char) -> int {
    16 * digit_value(c1) + digit_value(c2)
}

/// The two digits that spell `b`, the high one first.
pub open spec fn hex_digits(b: u8) -> (char, char) {
    (digit_char(b as int / 16), digit_char(b as int % 16))
}

/// Reads one hexadecimal digit. Only `0`-`9` and lowercase `a`-`f` are digits.
pub fn char_to_digit(c: char) -> (r: Result<u8, ()>)
    ensures
        r is Ok <==> is_hex_digit(c),
        r matches Ok(d) ==> d as int == digit_value(c) && d < 16,
{
    if '0' <= c && c <= '9' {
        Ok(c as u8 - '0' as u8)
    } else if 'a' <= c && c <= 'f' {
        Ok(c as u8 - 'a' as u8 + 10)
    } else {
        Err(())
    }
}

/// Reads the byte spelled by two hexadecimal digits, high digit first. It
/// fails where either is no digit.
pub fn hex_chars_to_u8(char1: u8, char2: u8) -> (r: Result<u8, ()>)
    ensures
        r is Ok <==> is_hex_digit(char1 as char) && is_hex_digit(char2 as char),
        r matches Ok(b) ==> b as int == hex_value(char1 as char, char2 as char),
{
    let digit1 = match char_to_digit(char1 as char) {
        Ok(d) => d,
        Err(_) => { return Err(()); },
    };
    let digit2 = match char_to_digit(char2 as char) {
        Ok(d) => d,
        Err(_) => { return Err(()); },
    };
    assert((digit1 << 4) | digit2 == 16 * digit1 + digit2) by (bit_vector)
        requires
            digit1 < 16,
            digit2 < 16,
    ;
    Ok((digit1 << 4) | digit2)
}

/// Spells a value below sixteen as one digit. It fails for any other value.
pub fn digit_to_char(d: u8) -> (r: Result<char, ()>)
    ensures
        r is Ok <==> d < 16,
        r matches Ok(c) ==> c == digit_char(d as int),
{
    if d < 10 {
        Ok((d + '0' as u8) as char)
    } else if d < 16 {
        Ok((d - 10 + 'a' as u8) as char)
    } else {
        Err(())
    }
}

/// Spells a byte as two hexadecimal digits, high digit first.
pub fn u8_to_hex_chars(b: u8) -> (r: (u8, u8))
    ensures
        r.0 as char == hex_digits(b).0,
        r.1 as char == hex_digits(b).1,
{
    let high: u8 = b / 16;
    let low: u8 = b % 16;
    let c1: u8 = if high < 10 {
        high + '0' as u8
    } else {
        high - 10 + 'a' as u8
    };
    let c2: u8 = if low < 10 {
        low + '0' as u8
    } else {
        low - 10 + 'a' as u8
    };
    (c1, c2)
}

/// A digit's value is below sixteen, and the digit that spells that value
/// is the digit itself.
pub proof fn law_digit_round_trip(c: char)
    requires
        is_hex_digit(c),
    ensures
        0 <= digit_value(c) < 16,
        digit_char(digit_value(c)) == c,
{
}

/// Each value below sixteen is spelled by a digit, and that digit has the
/// value.
pub proof fn law_value_round_trip(d: int)
    requires
        0 <= d < 16,
    ensures
        is_hex_digit(digit_char(d)),
        digit_value(digit_char(d)) == d,
{
}

/// Two digits, read as a byte and spelled again, come back as they were.
pub proof fn law_hex_round_trip(c1: char, c2: char)
    requires
        is_hex_digit(c1),
        is_hex_digit(c2),
    ensures
        0 <= hex_value(c1, c2) < 256,
        hex_digits(hex_value(c1, c2) as u8) == (c1, c2),
{
    law_digit_round_trip(c1);
    law_digit_round_trip(c2);
}

/// A byte, spelled as two digits and read again, comes back as it was.
pub proof fn law_byte_round_trip(b: u8)
    ensures
        is_hex_digit(hex_digits(b).0),
        is_hex_digit(hex_digits(b).1),
        hex_value(hex_digits(b).0, hex_digits(b).1) == b,
{
    law_value_round_trip(b as int / 16);
    law_value_round_trip(b as int % 16);
}

} // verus!
