use vstd::prelude::*;
use vstd::string::StringSliceAdditionalSpecFns;

verus! {

/// The value of a single hexadecimal digit, if `c` is one (either case).
pub open spec fn hex_digit_value(c: char) -> Option<u8> {
    if '0' <= c && c <= '9' {
        Some((c as u32 - '0' as u32) as u8)
    } else if 'a' <= c && c <= 'f' {
        Some((c as u32 - 'a' as u32 + 10) as u8)
    } else if 'A' <= c && c <= 'F' {
        Some((c as u32 - 'A' as u32 + 10) as u8)
    } else {
        None
    }
}

/// The hexadecimal digits and their values: `'0'` to `'9'` stand for 0 to 9,
/// `'a'` to `'f'` and `'A'` to `'F'` for 10 to 15, a letter has the same value
/// in either case, and nothing else is a digit.
pub proof fn hex_digits_and_their_values(c: char, k: u32)
    ensures
        k < 10 ==> hex_digit_value((('0' as u32) + k) as char) == Some(k as u8),
        k < 6 ==> hex_digit_value((('a' as u32) + k) as char) == Some((10 + k) as u8),
        k < 6 ==> hex_digit_value((('A' as u32) + k) as char) == Some((10 + k) as u8),
        ('a' <= c && c <= 'z') ==> hex_digit_value(c) == hex_digit_value(((c as u32) - 32) as char),
        hex_digit_value(c) matches Some(v) ==> v < 16,
        hex_digit_value(c) is Some <==> ('0' <= c && c <= '9') || ('a' <= c && c <= 'f') || (
        'A' <= c && c <= 'F'),
{
}

/// Two hexadecimal digits make the byte whose high nibble is the first and
/// whose low nibble is the second; anything else makes no byte.
pub proof fn hex_pairs_make_bytes(first: char, second: char)
    ensures
        hex_pair_value(first, second) is Some <==> hex_digit_value(first) is Some
            && hex_digit_value(second) is Some,
        hex_pair_value(first, second) matches Some(byte) ==> byte == 16
            * hex_digit_value(first).unwrap() + hex_digit_value(second).unwrap(),
{
    hex_digits_and_their_values(first, 0);
    hex_digits_and_their_values(second, 0);
}

/// Converts a single hexadecimal digit into its value.
pub fn hex_to_u8(value: char) -> (result: Option<u8>)
    ensures
        result == hex_digit_value(value),
{
    match value {
        '0' => Some(0),
        '1' => Some(1),
        '2' => Some(2),
        '3' => Some(3),
        '4' => Some(4),
        '5' => Some(5),
        '6' => Some(6),
        '7' => Some(7),
        '8' => Some(8),
        '9' => Some(9),
        'a' | 'A' => Some(10),
        'b' | 'B' => Some(11),
        'c' | 'C' => Some(12),
        'd' | 'D' => Some(13),
        'e' | 'E' => Some(14),
        'f' | 'F' => Some(15),
        _ => None,
    }
}


/// The byte whose high nibble is the digit `first` and whose low nibble is the
/// digit `second`, if both are hexadecimal digits.
pub open spec fn hex_pair_value(first: char, second: char) -> Option<u8> {
    match (hex_digit_value(first), hex_digit_value(second)) {
        (Some(hi), Some(lo)) => Some((hi * 16 + lo) as u8),
        _ => None,
    }
}

/// Converts two hexadecimal digits (most significant first) into a byte.
pub fn hex_duo_to_u8(first: char, second: char) -> (result: Option<u8>)
    ensures
        result == hex_pair_value(first, second),
{
    let first_u8 = match hex_to_u8(first) {
        Some(v) => v,
        None => {
            return None;
        },
    };
    let second_u8 = match hex_to_u8(second) {
        Some(v) => v,
        None => {
            return None;
        },
    };
    assert(first_u8 < 16 ==> (first_u8 << 4u8) == first_u8 * 16) by (bit_vector);
    Some((first_u8 << 4) + second_u8)
}

/// The red, green and blue components written in `bytes`: an optional leading
/// `#`, then six hexadecimal digits. Anything after them is ignored.
pub open spec fn hex_color_spec(bytes: Seq<u8>) -> Option<(u8, u8, u8)> {
    if bytes.len() == 0 {
        None
    } else {
        let start: int = if bytes[0] == 35 { 1 } else { 0 };
        if bytes.len() < start + 6 {
            None
        } else {
            match (
                hex_pair_value(bytes[start] as char, bytes[start + 1] as char),
                hex_pair_value(bytes[start + 2] as char, bytes[start + 3] as char),
                hex_pair_value(bytes[start + 4] as char, bytes[start + 5] as char),
            ) {
                (Some(r), Some(g), Some(b)) => Some((r, g, b)),
                _ => None,
            }
        }
    }
}

/// Parses a color written as `#rrggbb` or `rrggbb` into its components.
pub fn hex_color_to_opt_u8_slice(value: &str) -> (result: Option<[u8; 3]>)
    ensures
        match result {
            Some(rgb) => hex_color_spec(value.spec_bytes()) == Some((rgb[0], rgb[1], rgb[2])),
            None => hex_color_spec(value.spec_bytes()) is None,
        },
{
    let bytes = value.as_bytes();
    if bytes.len() == 0 {
        return None;
    }
    let start: usize = if bytes[0] == 35u8 { 1 } else { 0 };
    if bytes.len() < start + 6 {
        return None;
    }
    let r = match hex_duo_to_u8(bytes[start] as char, bytes[start + 1] as char) {
        Some(v) => v,
        None => {
            return None;
        },
    };
    let g = match hex_duo_to_u8(bytes[start + 2] as char, bytes[start + 3] as char) {
        Some(v) => v,
        None => {
            return None;
        },
    };
    let b = match hex_duo_to_u8(bytes[start + 4] as char, bytes[start + 5] as char) {
        Some(v) => v,
        None => {
            return None;
        },
    };
    Some([r, g, b])
}

/// A color given by its red, green and blue components.
#[derive(Debug, PartialEq, Eq, Structural, Clone, Copy)]
pub struct HexColor {
    red: u8,
    green: u8,
    blue: u8,
}

impl HexColor {
    /// The color's red, green and blue components, in that order.
    pub closed spec fn rgb_spec(&self) -> (u8, u8, u8) {
        (self.red, self.green, self.blue)
    }

    /// The color's red, green and blue components, in that order.
    pub fn rgb(&self) -> (result: [u8; 3])
        ensures
            (result[0], result[1], result[2]) == self.rgb_spec(),
    {
        [self.red, self.green, self.blue]
    }
}

/// Parses a color written as `#rrggbb` or `rrggbb`. The text must hold such a
/// color: this is meant for colors written into the program itself.
pub fn hex_color(value: &str) -> (result: HexColor)
    requires
        hex_color_spec(value.spec_bytes()) is Some,
    ensures
        Some(result.rgb_spec()) == hex_color_spec(value.spec_bytes()),
{
    match hex_color_to_opt_u8_slice(value) {
        Some(color) => HexColor { red: color[0], green: color[1], blue: color[2] },
        None => {
            proof {
                assert(false);
            }
            HexColor { red: 0, green: 0, blue: 0 }
        },
    }
}

} // verus!
