//! Hexadecimal colors of theme files: `#RGB`, `#RGBA`, `#RRGGBB` or `#RRGGBBAA`.
use vstd::prelude::*;
use vstd::utf8::encode_utf8;

use crate::color::{cuts_at, dec_string, dec_usize, parse_hex_pair, parse_hex_pair_exec, starts_char};
use crate::text::{chars_of, concat_chars, string_from, sub_vec};

verus! {

/// Why a theme color is not a hexadecimal color.
#[derive(Clone, Copy, Debug, PartialEq, Eq, Structural)]
pub enum HexColorError {
    /// A component is no hexadecimal number.
    InvalidDigit,
    /// The text after the `#` signs has this many bytes, not 3, 4, 6 or 8.
    InvalidLength(usize),
}

/// Outcome of reading a theme color from the bytes after its leading `#` signs.
pub enum ThemeHexParse {
    /// A component would be cut inside a multi-byte character.
    CutsCharacter,
    /// The text is no hexadecimal color.
    Failed(HexColorError),
    /// The red, green, blue and alpha components.
    Parsed(u8, u8, u8, u8),
}

/// `s` without its leading `#` signs (`trim_start_matches('#')`).
pub open spec fn strip_hashes(s: Seq<char>) -> Seq<char>
    decreases s.len(),
{
    if s.len() > 0 && s[0] == '#' {
        strip_hashes(s.drop_first())
    } else {
        s
    }
}

/// Reading the components one by one, each from one doubled digit or from two digits,
/// as the slicing and `from_str_radix` calls do.
pub open spec fn theme_hex(hb: Seq<u8>) -> ThemeHexParse {
    let n = hb.len();
    if n == 3 || n == 4 {
        if !starts_char(hb, 1) {
            ThemeHexParse::CutsCharacter
        } else {
            match parse_hex_pair(hb[0], hb[0]) {
                None => ThemeHexParse::Failed(HexColorError::InvalidDigit),
                Some(r) => if !starts_char(hb, 2) {
                    ThemeHexParse::CutsCharacter
                } else {
                    match parse_hex_pair(hb[1], hb[1]) {
                        None => ThemeHexParse::Failed(HexColorError::InvalidDigit),
                        Some(g) => if n == 4 && !starts_char(hb, 3) {
                            ThemeHexParse::CutsCharacter
                        } else {
                            match parse_hex_pair(hb[2], hb[2]) {
                                None => ThemeHexParse::Failed(HexColorError::InvalidDigit),
                                Some(b) => if n == 3 {
                                    ThemeHexParse::Parsed(r, g, b, 255)
                                } else {
                                    match parse_hex_pair(hb[3], hb[3]) {
                                        None => ThemeHexParse::Failed(HexColorError::InvalidDigit),
                                        Some(a) => ThemeHexParse::Parsed(r, g, b, a),
                                    }
                                }
                            }
                        }
                    }
                },
            }
        }
    } else if n == 6 || n == 8 {
        if !starts_char(hb, 2) {
            ThemeHexParse::CutsCharacter
        } else {
            match parse_hex_pair(hb[0], hb[1]) {
                None => ThemeHexParse::Failed(HexColorError::InvalidDigit),
                Some(r) => if !starts_char(hb, 4) {
                    ThemeHexParse::CutsCharacter
                } else {
                    match parse_hex_pair(hb[2], hb[3]) {
                        None => ThemeHexParse::Failed(HexColorError::InvalidDigit),
                        Some(g) => if n == 8 && !starts_char(hb, 6) {
                            ThemeHexParse::CutsCharacter
                        } else {
                            match parse_hex_pair(hb[4], hb[5]) {
                                None => ThemeHexParse::Failed(HexColorError::InvalidDigit),
                                Some(b) => if n == 6 {
                                    ThemeHexParse::Parsed(r, g, b, 255)
                                } else {
                                    match parse_hex_pair(hb[6], hb[7]) {
                                        None => ThemeHexParse::Failed(HexColorError::InvalidDigit),
                                        Some(a) => ThemeHexParse::Parsed(r, g, b, a),
                                    }
                                }
                            }
                        }
                    }
                },
            }
        }
    } else {
        ThemeHexParse::Failed(HexColorError::InvalidLength(n as usize))
    }
}

/// The reading of a theme color text.
pub open spec fn theme_hex_of(s: Seq<char>) -> ThemeHexParse {
    theme_hex(encode_utf8(strip_hashes(s)))
}

fn strip_hash_chars(s: &str) -> (r: Vec<char>)
    ensures
        r@ == strip_hashes(s@),
{
    let v = chars_of(s);
    assert(v@.subrange(0, v.len() as int) == v@);
    let mut i: usize = 0;
    while i < v.len() && v[i] == '#'
        invariant
            i <= v.len(),
            v@ == s@,
            strip_hashes(s@) == strip_hashes(v@.subrange(i as int, v.len() as int)),
        decreases v.len() - i,
    {
        let ghost rest = v@.subrange(i as int, v.len() as int);
        assert(rest.drop_first() == v@.subrange(i + 1, v.len() as int));
        i = i + 1;
    }
    sub_vec(&v, i, v.len())
}

fn theme_hex_cuts(hb: &[u8]) -> (b: bool)
    ensures
        b == (theme_hex(hb@) is CutsCharacter),
{
    let n = hb.len();
    if n == 3 || n == 4 {
        if cuts_at(hb, 1) {
            return true;
        }
        if parse_hex_pair_exec(hb[0], hb[0]).is_none() {
            return false;
        }
        if cuts_at(hb, 2) {
            return true;
        }
        if parse_hex_pair_exec(hb[1], hb[1]).is_none() {
            return false;
        }
        n == 4 && cuts_at(hb, 3)
    } else if n == 6 || n == 8 {
        if cuts_at(hb, 2) {
            return true;
        }
        if parse_hex_pair_exec(hb[0], hb[1]).is_none() {
            return false;
        }
        if cuts_at(hb, 4) {
            return true;
        }
        if parse_hex_pair_exec(hb[2], hb[3]).is_none() {
            return false;
        }
        n == 8 && cuts_at(hb, 6)
    } else {
        false
    }
}

/// Whether reading `s` as a theme color would cut a component inside a multi-byte
/// character, where `parse_hex_color` may not be called.
pub fn theme_hex_cuts_inside_character(s: &str) -> (b: bool)
    ensures
        b == (theme_hex_of(s@) is CutsCharacter),
{
    let digits = string_from(&strip_hash_chars(s));
    theme_hex_cuts(digits.as_str().as_bytes())
}

fn pair(x: u8, y: u8) -> (r: Result<u8, HexColorError>)
    ensures
        match parse_hex_pair(x, y) {
            Some(v) => r == Ok::<u8, HexColorError>(v),
            None => r == Err::<u8, HexColorError>(HexColorError::InvalidDigit),
        },
{
    match parse_hex_pair_exec(x, y) {
        Some(v) => Ok(v),
        None => Err(HexColorError::InvalidDigit),
    }
}

/// The red, green, blue and alpha components of a theme color written `#RGB`, `#RGBA`,
/// `#RRGGBB` or `#RRGGBBAA` (any number of leading `#` signs); alpha is 255 when absent.
pub fn parse_hex_color(s: &str) -> (r: Result<(u8, u8, u8, u8), HexColorError>)
    requires
        !(theme_hex_of(s@) is CutsCharacter),
    ensures
        match theme_hex_of(s@) {
            ThemeHexParse::Parsed(cr, cg, cb, ca) => r == Ok::<(u8, u8, u8, u8), HexColorError>(
                (cr, cg, cb, ca),
            ),
            ThemeHexParse::Failed(e) => r == Err::<(u8, u8, u8, u8), HexColorError>(e),
            ThemeHexParse::CutsCharacter => false,
        },
{
    let digits = string_from(&strip_hash_chars(s));
    let hb = digits.as_str().as_bytes();
    let n = hb.len();
    if n == 3 || n == 4 {
        let r = pair(hb[0], hb[0])?;
        let g = pair(hb[1], hb[1])?;
        let b = pair(hb[2], hb[2])?;
        let a = if n == 4 {
            pair(hb[3], hb[3])?
        } else {
            255
        };
        Ok((r, g, b, a))
    } else if n == 6 || n == 8 {
        let r = pair(hb[0], hb[1])?;
        let g = pair(hb[2], hb[3])?;
        let b = pair(hb[4], hb[5])?;
        let a = if n == 8 {
            pair(hb[6], hb[7])?
        } else {
            255
        };
        Ok((r, g, b, a))
    } else {
        Err(HexColorError::InvalidLength(n))
    }
}

/// The text of an error: what `ParseIntError` or the length check reports.
pub open spec fn error_message(e: HexColorError) -> Seq<char> {
    match e {
        HexColorError::InvalidDigit => "Invalid hex color: invalid digit found in string"@,
        HexColorError::InvalidLength(n) => "Invalid hex color length: "@ + dec_string(n as nat),
    }
}

impl HexColorError {
    /// The error's message.
    pub fn message(&self) -> (m: String)
        ensures
            m@ == error_message(*self),
    {
        match self {
            HexColorError::InvalidDigit => string_from(
                &chars_of("Invalid hex color: invalid digit found in string"),
            ),
            HexColorError::InvalidLength(n) => string_from(
                &concat_chars(&chars_of("Invalid hex color length: "), &dec_usize(*n)),
            ),
        }
    }
}

} // verus!
