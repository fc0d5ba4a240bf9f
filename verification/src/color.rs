//! The colour that the service hands out, and the text it is read from.

use crate::hex::{hex_chars_to_u8, hex_value, is_hex_digit};
use vstd::prelude::*;

verus! {

/// A colour: red, green and blue, each a byte. A value is always a whole
/// triple; it is replaced as one and never changed channel by channel.
#[derive(Clone, Copy, Debug, PartialEq, Eq, Structural)]
pub struct ColorState {
    pub r: u8,
    pub g: u8,
    pub b: u8,
}

/// Why a colour source could not be read. Either is fatal to the service:
/// the source is written by a machine, and a damaged one is not passed over.
#[derive(Clone, Copy, Debug, PartialEq, Eq, Structural)]
pub enum SourceError {
    /// The source holds fewer than six bytes.
    Truncated,
    /// One of the first six bytes is no lowercase hexadecimal digit.
    BadDigit,
}

/// The number of bytes that spell a colour: two digits for each channel.
pub const COLOR_DIGITS: usize = 6;

/// The byte that the two digits at `at` and `at + 1` of `source` spell.
pub open spec fn channel_at(source: Seq<u8>, at: int) -> u8 {
    hex_value(source[at] as char, source[at + 1] as char) as u8
}

/// The first six bytes of `source` are hexadecimal digits.
pub open spec fn is_color_text(source: Seq<u8>) -> bool {
    &&& source.len() >= 6
    &&& forall|i: int| 0 <= i < 6 ==> is_hex_digit(#[trigger] source[i] as char)
}

/// The colour that `source` spells in its first six bytes, as `RRGGBB`;
/// meaningful where `is_color_text(source)`.
pub open spec fn color_of(source: Seq<u8>) -> ColorState {
    ColorState { r: channel_at(source, 0), g: channel_at(source, 2), b: channel_at(source, 4) }
}

impl Default for ColorState {
    /// White, the colour before any source was read.
    fn default() -> (c: Self)
        ensures
            c == (ColorState { r: 255, g: 255, b: 255 }),
    {
        ColorState { r: 255, g: 255, b: 255 }
    }
}

impl ColorState {
    /// The colour with the given channels.
    pub fn new(r: u8, g: u8, b: u8) -> (c: Self)
        ensures
            c == (ColorState { r, g, b }),
    {
        ColorState { r, g, b }
    }

    /// The three channels as they are now.
    pub fn snapshot(&self) -> (t: (u8, u8, u8))
        ensures
            t == (self.r, self.g, self.b),
    {
        (self.r, self.g, self.b)
    }

    /// Replaces all three channels at once and says whether any of them
    /// changed.
    pub fn update(&mut self, r: u8, g: u8, b: u8) -> (changed: bool)
        ensures
            *final(self) == (ColorState { r, g, b }),
            changed == (*old(self) != *final(self)),
    {
        let changed = self.r != r || self.g != g || self.b != b;
        self.r = r;
        self.g = g;
        self.b = b;
        changed
    }

    /// The three bytes that go to a client: red, green, blue.
    pub fn to_bytes(&self) -> (bytes: [u8; 3])
        ensures
            bytes@ == seq![self.r, self.g, self.b],
    {
        [self.r, self.g, self.b]
    }
}

/// What reading `source` as a colour gives: the colour that its first six
/// bytes spell, or why they spell none.
pub open spec fn decoded(source: Seq<u8>) -> Result<ColorState, SourceError> {
    if source.len() < 6 {
        Err(SourceError::Truncated)
    } else if !is_color_text(source) {
        Err(SourceError::BadDigit)
    } else {
        Ok(color_of(source))
    }
}

/// Reads a colour from the first six bytes of `source`, two lowercase
/// hexadecimal digits for each of red, green and blue. What follows the sixth
/// byte is not looked at.
pub fn decode_color(source: &[u8]) -> (r: Result<ColorState, SourceError>)
    ensures
        r == decoded(source@),
{
    if source.len() < COLOR_DIGITS {
        return Err(SourceError::Truncated);
    }
    let r = match hex_chars_to_u8(source[0], source[1]) {
        Ok(v) => v,
        Err(_) => { return Err(SourceError::BadDigit); },
    };
    let g = match hex_chars_to_u8(source[2], source[3]) {
        Ok(v) => v,
        Err(_) => { return Err(SourceError::BadDigit); },
    };
    let b = match hex_chars_to_u8(source[4], source[5]) {
        Ok(v) => v,
        Err(_) => { return Err(SourceError::BadDigit); },
    };
    Ok(ColorState { r, g, b })
}

} // verus!
