//! The overlay's background color, parsed from a `#RRGGBB` or `#RRGGBBAA`
//! hex string into four eight-bit channels.

use crate::text::push_char;
use vstd::prelude::*;
use vstd::string::StrSliceExecFns;

verus! {

/// A color as four eight-bit channels.  An omitted alpha channel means
/// fully opaque.
#[derive(Debug, Clone, Copy, PartialEq, Eq, Structural)]
pub struct Color {
    pub r: u8,
    pub g: u8,
    pub b: u8,
    pub a: u8,
}

/// Whether a character is a hexadecimal digit, of either case.
pub open spec fn is_hex_digit(c: char) -> bool {
    (48 <= c as u32 <= 57) || (97 <= c as u32 <= 102) || (65 <= c as u32 <= 70)
}

/// The value of one hexadecimal digit character.
pub open spec fn hex_val(c: char) -> nat
    recommends
        is_hex_digit(c),
{
    if 48 <= c as u32 <= 57 {
        (c as u32 - 48) as nat
    } else if 97 <= c as u32 <= 102 {
        (c as u32 - 87) as nat
    } else {
        (c as u32 - 55) as nat
    }
}

/// Whether two adjacent characters of `s`, starting at `i`, are a valid
/// hexadecimal byte.
pub open spec fn hex_pair_ok(s: Seq<char>, i: int) -> bool {
    is_hex_digit(s[i]) && is_hex_digit(s[i + 1])
}

/// The byte two adjacent characters of `s`, starting at `i`, denote.
pub open spec fn hex_pair_val(s: Seq<char>, i: int) -> nat {
    hex_val(s[i]) * 16 + hex_val(s[i + 1])
}

/// The color a hex string denotes: a `#`, then three hexadecimal byte
/// pairs, then optionally a fourth for the alpha channel; anything else
/// denotes nothing.
pub open spec fn spec_from_hex(s: Seq<char>) -> Option<Color> {
    if s.len() != 7 && s.len() != 9 {
        None
    } else if s[0] != '#' {
        None
    } else if !(hex_pair_ok(s, 1) && hex_pair_ok(s, 3) && hex_pair_ok(s, 5)) {
        None
    } else if s.len() == 9 && !hex_pair_ok(s, 7) {
        None
    } else {
        Some(
            Color {
                r: hex_pair_val(s, 1) as u8,
                g: hex_pair_val(s, 3) as u8,
                b: hex_pair_val(s, 5) as u8,
                a: if s.len() == 9 {
                    hex_pair_val(s, 7) as u8
                } else {
                    255
                },
            },
        )
    }
}

fn hex_digit(c: char) -> (r: Option<u8>)
    ensures
        r is Some <==> is_hex_digit(c),
        r matches Some(v) ==> v as nat == hex_val(c) && v < 16,
{
    let u = c as u32;
    if 48 <= u && u <= 57 {
        Some((u - 48) as u8)
    } else if 97 <= u && u <= 102 {
        Some((u - 87) as u8)
    } else if 65 <= u && u <= 70 {
        Some((u - 55) as u8)
    } else {
        None
    }
}

fn hex_pair(s: &str, i: usize) -> (r: Option<u8>)
    requires
        i + 2 <= s@.len(),
        i + 2 <= usize::MAX,
    ensures
        r is Some <==> hex_pair_ok(s@, i as int),
        r matches Some(v) ==> v as nat == hex_pair_val(s@, i as int),
{
    let hi = match hex_digit(s.get_char(i)) {
        Some(v) => v,
        None => {
            return None;
        },
    };
    let lo = match hex_digit(s.get_char(i + 1)) {
        Some(v) => v,
        None => {
            return None;
        },
    };
    Some(hi * 16 + lo)
}

impl Color {
    /// A color from its four channels.
    pub fn new(r: u8, g: u8, b: u8, a: u8) -> (c: Self)
        ensures
            c == (Color { r, g, b, a }),
    {
        Color { r, g, b, a }
    }

    /// Parses a `#RRGGBB` or `#RRGGBBAA` hex string.
    pub fn from_hex(hex_str: &str) -> (r: Option<Self>)
        ensures
            r == spec_from_hex(hex_str@),
    {
        let n = hex_str.unicode_len();
        if n != 7 && n != 9 {
            return None;
        }
        if hex_str.get_char(0) != '#' {
            return None;
        }
        let red = match hex_pair(hex_str, 1) {
            Some(v) => v,
            None => {
                return None;
            },
        };
        let green = match hex_pair(hex_str, 3) {
            Some(v) => v,
            None => {
                return None;
            },
        };
        let blue = match hex_pair(hex_str, 5) {
            Some(v) => v,
            None => {
                return None;
            },
        };
        let alpha = if n == 9 {
            match hex_pair(hex_str, 7) {
                Some(v) => v,
                None => {
                    return None;
                },
            }
        } else {
            255
        };
        Some(Color { r: red, g: green, b: blue, a: alpha })
    }
}

impl Default for Color {
    /// Opaque black.
    fn default() -> (c: Self)
        ensures
            c == (Color { r: 0, g: 0, b: 0, a: 255 }),
    {
        Color { r: 0, g: 0, b: 0, a: 255 }
    }
}

/// The character for one hexadecimal digit, upper case.
pub open spec fn hex_digit_char(d: nat) -> char
    recommends
        d < 16,
{
    if d == 10 {
        'A'
    } else if d == 11 {
        'B'
    } else if d == 12 {
        'C'
    } else if d == 13 {
        'D'
    } else if d == 14 {
        'E'
    } else if d == 15 {
        'F'
    } else {
        crate::text::digit_char(d)
    }
}

/// The two upper-case hexadecimal digits of a byte.
pub open spec fn hex_byte_rep(v: u8) -> Seq<char> {
    seq![hex_digit_char((v / 16) as nat), hex_digit_char((v % 16) as nat)]
}

fn hex_digit_to_char(d: u8) -> (c: char)
    requires
        d < 16,
    ensures
        c == hex_digit_char(d as nat),
{
    match d {
        0 => '0',
        1 => '1',
        2 => '2',
        3 => '3',
        4 => '4',
        5 => '5',
        6 => '6',
        7 => '7',
        8 => '8',
        9 => '9',
        10 => 'A',
        11 => 'B',
        12 => 'C',
        13 => 'D',
        14 => 'E',
        _ => 'F',
    }
}

fn push_hex_byte(s: &mut String, v: u8)
    ensures
        final(s)@ == old(s)@ + hex_byte_rep(v),
{
    push_char(s, hex_digit_to_char(v / 16));
    push_char(s, hex_digit_to_char(v % 16));
    proof {
        assert(s@ =~= old(s)@ + hex_byte_rep(v));
    }
}

impl Color {
    /// The color's channels as a `#RRGGBBAA` hex string.
    pub open spec fn spec_hex_string(self) -> Seq<char> {
        seq!['#'] + hex_byte_rep(self.r) + hex_byte_rep(self.g) + hex_byte_rep(self.b)
            + hex_byte_rep(self.a)
    }

    /// Writes the color as a `#RRGGBBAA` hex string.
    pub fn hex_string(&self) -> (r: String)
        ensures
            r@ == self.spec_hex_string(),
    {
        let mut s = String::new();
        push_char(&mut s, '#');
        push_hex_byte(&mut s, self.r);
        push_hex_byte(&mut s, self.g);
        push_hex_byte(&mut s, self.b);
        push_hex_byte(&mut s, self.a);
        proof {
            assert(s@ =~= self.spec_hex_string());
        }
        s
    }
}

} // verus!
