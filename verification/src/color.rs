//! Colours as the sidecar writes them.

use vstd::prelude::*;

use crate::text::to_chars;

verus! {

/// A colour: red, green, blue and opacity.
#[derive(Clone, Copy, Debug, PartialEq, Eq, Structural)]
pub struct Color(pub u8, pub u8, pub u8, pub u8);

/// The value of a hexadecimal digit of either case.
pub open spec fn hex_digit(c: char) -> Option<u8> {
    if '0' <= c <= '9' {
        Some((c as int - '0' as int) as u8)
    } else if 'a' <= c <= 'f' {
        Some((c as int - 'a' as int + 10) as u8)
    } else if 'A' <= c <= 'F' {
        Some((c as int - 'A' as int + 10) as u8)
    } else {
        None
    }
}

/// The value of two hexadecimal digits.
pub open spec fn hex_pair(first: char, second: char) -> Option<u8> {
    match (hex_digit(first), hex_digit(second)) {
        (Some(high), Some(low)) => Some((16 * high + low) as u8),
        _ => None,
    }
}

/// The opaque colour with the given channels, if all three are there.
pub open spec fn opaque(red: Option<u8>, green: Option<u8>, blue: Option<u8>) -> Option<Color> {
    match (red, green, blue) {
        (Some(r), Some(g), Some(b)) => Some(Color(r, g, b, 255)),
        _ => None,
    }
}

/// The colour that `value` writes as `#rrggbb` or `#rgb`.
pub open spec fn hex_color(value: Seq<char>) -> Option<Color> {
    if value.len() == 4 && value[0] == '#' {
        opaque(
            hex_pair(value[1], value[1]),
            hex_pair(value[2], value[2]),
            hex_pair(value[3], value[3]),
        )
    } else if value.len() == 7 && value[0] == '#' {
        opaque(
            hex_pair(value[1], value[2]),
            hex_pair(value[3], value[4]),
            hex_pair(value[5], value[6]),
        )
    } else {
        None
    }
}

fn digit_value(c: char) -> (value: Option<u8>)
    ensures
        value == hex_digit(c),
        value matches Some(v) ==> v < 16,
{
    if '0' <= c && c <= '9' {
        Some((c as u32 - '0' as u32) as u8)
    } else if 'a' <= c && c <= 'f' {
        Some((c as u32 - 'a' as u32 + 10) as u8)
    } else if 'A' <= c && c <= 'F' {
        Some((c as u32 - 'A' as u32 + 10) as u8)
    } else {
        None
    }
}

fn pair_value(first: char, second: char) -> (value: Option<u8>)
    ensures
        value == hex_pair(first, second),
{
    match (digit_value(first), digit_value(second)) {
        (Some(high), Some(low)) => Some(16 * high + low),
        _ => None,
    }
}

/// `#rrggbb` or `#rgb`, as the sidecar sends it, as a colour. Anything else is no colour, so
/// that a malformed value leaves the default.
pub fn parse_hex_color(value: &str) -> (color: Option<Color>)
    ensures
        color == hex_color(value@),
{
    let chars = to_chars(value);
    if chars.len() == 0 || chars[0] != '#' {
        return None;
    }
    let (red, green, blue) = match chars.len() {
        4 => (
            pair_value(chars[1], chars[1]),
            pair_value(chars[2], chars[2]),
            pair_value(chars[3], chars[3]),
        ),
        7 => (
            pair_value(chars[1], chars[2]),
            pair_value(chars[3], chars[4]),
            pair_value(chars[5], chars[6]),
        ),
        _ => return None,
    };
    match (red, green, blue) {
        (Some(r), Some(g), Some(b)) => Some(Color(r, g, b, 255)),
        _ => None,
    }
}

/// The short form stands for the long form with each digit doubled.
pub proof fn law_short_form_doubles_digits(r: char, g: char, b: char)
    ensures
        hex_color(seq!['#', r, g, b]) == hex_color(seq!['#', r, r, g, g, b, b]),
{
}

/// A value is a colour exactly if it is a hash sign and three or six hexadecimal digits.
pub proof fn law_colors_are_hash_and_digits(value: Seq<char>)
    ensures
        hex_color(value) is Some <==> {
            &&& value.len() == 4 || value.len() == 7
            &&& value[0] == '#'
            &&& forall|i: int| 1 <= i < value.len() ==> hex_digit(#[trigger] value[i]) is Some
        },
{
}

/// Every colour that is read is opaque.
pub proof fn law_colors_are_opaque(value: Seq<char>)
    ensures
        hex_color(value) matches Some(color) ==> color.3 == 255,
{
}

} // verus!
