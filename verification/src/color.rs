//! RGBA colors: construction, formatting and parsing of color strings.
use vstd::prelude::*;
use vstd::utf8::{encode_utf8, is_continuation_byte};

use crate::search::hex_digit_upper;
use crate::text::{
    chars_of, concat_chars, has_prefix, last_index, last_index_of, lemma_last_index_range, split_on,
    split_trimmed, starts_with, string_from, sub_vec, trim, trim_end, trim_start, trim_str,
};

verus! {

/// A color with RGBA components.
#[derive(Debug, Clone, Copy, PartialEq, Eq, Structural)]
pub struct Color {
    pub r: u8,
    pub g: u8,
    pub b: u8,
    pub a: u8,
}

/// Value of an ASCII hexadecimal digit, or -1 for any other byte.
pub open spec fn hex_digit_value(b: u8) -> int {
    if 0x30 <= b <= 0x39 {
        b - 0x30
    } else if 0x61 <= b <= 0x66 {
        b - 0x61 + 10
    } else if 0x41 <= b <= 0x46 {
        b - 0x41 + 10
    } else {
        -1
    }
}

/// What `u8::from_str_radix(s, 16)` gives for the two bytes `s = [x, y]`: a leading
/// `+` is allowed, every other byte must be a hexadecimal digit.
pub open spec fn parse_hex_pair(x: u8, y: u8) -> Option<u8> {
    if x == 0x2b {
        if hex_digit_value(y) >= 0 {
            Some(hex_digit_value(y) as u8)
        } else {
            None
        }
    } else if hex_digit_value(x) >= 0 && hex_digit_value(y) >= 0 {
        Some((16 * hex_digit_value(x) + hex_digit_value(y)) as u8)
    } else {
        None
    }
}

/// Outcome of reading the bytes after `#` as a hexadecimal color.
pub enum HexParse {
    /// The length is not one of 3, 6 or 8 bytes.
    NotHex,
    /// A component would be cut inside a multi-byte character.
    CutsCharacter,
    /// The color, or none when a component is no hexadecimal number.
    Parsed(Option<Color>),
}

/// Byte position `i` of `hb` starts a character (or is its end).
pub open spec fn starts_char(hb: Seq<u8>, i: int) -> bool {
    i == hb.len() || !is_continuation_byte(hb[i])
}

/// Reading `#RGB`, `#RRGGBB` or `#RRGGBBAA` from the bytes after `#`, component by
/// component, as the slicing and `from_str_radix` calls do.
pub open spec fn hex_parse(hb: Seq<u8>) -> HexParse {
    if hb.len() == 3 {
        if !starts_char(hb, 1) {
            HexParse::CutsCharacter
        } else {
            match parse_hex_pair(hb[0], hb[0]) {
                None => HexParse::Parsed(None),
                Some(r) => if !starts_char(hb, 2) {
                    HexParse::CutsCharacter
                } else {
                    match parse_hex_pair(hb[1], hb[1]) {
                        None => HexParse::Parsed(None),
                        Some(g) => match parse_hex_pair(hb[2], hb[2]) {
                            None => HexParse::Parsed(None),
                            Some(b) => HexParse::Parsed(Some(Color { r, g, b, a: 255 })),
                        },
                    }
                },
            }
        }
    } else if hb.len() == 6 || hb.len() == 8 {
        if !starts_char(hb, 2) {
            HexParse::CutsCharacter
        } else {
            match parse_hex_pair(hb[0], hb[1]) {
                None => HexParse::Parsed(None),
                Some(r) => if !starts_char(hb, 4) {
                    HexParse::CutsCharacter
                } else {
                    match parse_hex_pair(hb[2], hb[3]) {
                        None => HexParse::Parsed(None),
                        Some(g) => if hb.len() == 8 && !starts_char(hb, 6) {
                            HexParse::CutsCharacter
                        } else {
                            match parse_hex_pair(hb[4], hb[5]) {
                                None => HexParse::Parsed(None),
                                Some(b) => if hb.len() == 6 {
                                    HexParse::Parsed(Some(Color { r, g, b, a: 255 }))
                                } else {
                                    match parse_hex_pair(hb[6], hb[7]) {
                                        None => HexParse::Parsed(None),
                                        Some(a) => HexParse::Parsed(Some(Color { r, g, b, a })),
                                    }
                                }
                            }
                        }
                    }
                },
            }
        }
    } else {
        HexParse::NotHex
    }
}

/// The hexadecimal reading of a trimmed text, when it starts with `#`.
pub open spec fn hex_part(t: Seq<char>) -> HexParse {
    if t.len() > 0 && t[0] == '#' {
        hex_parse(encode_utf8(t.drop_first()))
    } else {
        HexParse::NotHex
    }
}

/// Parsing `text` would slice a hexadecimal component inside a multi-byte character
/// (where the string slicing panics).
pub open spec fn hex_cuts_character(text: Seq<char>) -> bool {
    hex_part(trim(text)) is CutsCharacter
}

/// Value of a sequence of decimal digits.
pub open spec fn dec_value(d: Seq<char>) -> int
    decreases d.len(),
{
    if d.len() == 0 {
        0
    } else {
        10 * dec_value(d.drop_last()) + (d.last() as int - 0x30)
    }
}

/// Every character of `d` is a decimal digit.
pub open spec fn all_dec_digits(d: Seq<char>) -> bool {
    forall|i: int| 0 <= i < d.len() ==> '0' <= #[trigger] d[i] <= '9'
}

/// What `s.parse::<u8>()` gives: an optional `+`, then decimal digits whose value is
/// at most 255.
pub open spec fn parse_dec_u8(s: Seq<char>) -> Option<u8> {
    if s.len() == 0 || s == seq!['+'] || s == seq!['-'] {
        None
    } else {
        let d = if s[0] == '+' {
            s.drop_first()
        } else {
            s
        };
        if all_dec_digits(d) && dec_value(d) <= 255 {
            Some(dec_value(d) as u8)
        } else {
            None
        }
    }
}

/// Where the component list of an `rgb(` or `rgba(` text starts, or -1.
pub open spec fn rgb_start(t: Seq<char>) -> int {
    if has_prefix(t, "rgba("@) {
        5
    } else if has_prefix(t, "rgb("@) {
        4
    } else {
        -1
    }
}

/// What the syntax of a color text gives: a color or none, or the three components of
/// an `rgb(..)` text with the text of its alpha component still to be read.
pub enum ColorSyntax {
    Done(Option<Color>),
    WithAlpha(u8, u8, u8, Seq<char>),
}

/// The syntax of a color text: `#RGB`, `#RRGGBB`, `#RRGGBBAA`, or `rgb(r, g, b)` and
/// `rgba(r, g, b, a)` (the components between the prefix and the last `)`, split at
/// commas and trimmed), surrounding whitespace ignored.
pub open spec fn color_syntax(text: Seq<char>) -> ColorSyntax {
    let t = trim(text);
    match hex_part(t) {
        HexParse::Parsed(o) => ColorSyntax::Done(o),
        _ => {
            let st = rgb_start(t);
            let end = last_index_of(t, ')', t.len() as int);
            if st < 0 || end < st {
                ColorSyntax::Done(None)
            } else {
                let parts = split_on(t.subrange(st, end), ',');
                if parts.len() < 3 {
                    ColorSyntax::Done(None)
                } else {
                    match (
                        parse_dec_u8(trim(parts[0])),
                        parse_dec_u8(trim(parts[1])),
                        parse_dec_u8(trim(parts[2])),
                    ) {
                        (Some(r), Some(g), Some(b)) => if parts.len() >= 4 {
                            ColorSyntax::WithAlpha(r, g, b, trim(parts[3]))
                        } else {
                            ColorSyntax::Done(Some(Color { r, g, b, a: 255 }))
                        },
                        _ => ColorSyntax::Done(None),
                    }
                }
            }
        },
    }
}

/// Two upper-case hexadecimal digits of a byte.
pub open spec fn hex2(x: u8) -> Seq<char> {
    seq![hex_digit_upper(x / 16), hex_digit_upper(x % 16)]
}

/// `#RRGGBB`, or `#RRGGBBAA` when the color is not opaque.
pub open spec fn hex_string(c: Color) -> Seq<char> {
    let rgb = seq!['#'] + hex2(c.r) + hex2(c.g) + hex2(c.b);
    if c.a == 255 {
        rgb
    } else {
        rgb + hex2(c.a)
    }
}

/// Decimal digits of a number, without leading zeros.
pub open spec fn dec_string(n: nat) -> Seq<char>
    decreases n,
{
    if n < 10 {
        seq![((0x30 + n) as u8) as char]
    } else {
        dec_string(n / 10).push(((0x30 + n % 10) as u8) as char)
    }
}

/// `R, G, B` with decimal components, as the color preview labels it.
pub open spec fn rgb_components_string(c: Color) -> Seq<char> {
    dec_string(c.r as nat) + ", "@ + dec_string(c.g as nat) + ", "@ + dec_string(c.b as nat)
}

/// `rgb(R, G, B)` in decimal.
pub open spec fn rgb_string(c: Color) -> Seq<char> {
    "rgb("@ + dec_string(c.r as nat) + ", "@ + dec_string(c.g as nat) + ", "@ + dec_string(
        c.b as nat,
    ) + ")"@
}

impl Color {
    /// An opaque color from RGB components.
    pub fn from_rgb(r: u8, g: u8, b: u8) -> (c: Self)
        ensures
            c == (Color { r, g, b, a: 255 }),
    {
        Color { r, g, b, a: 255 }
    }

    /// A color from RGBA components.
    pub fn from_rgba(r: u8, g: u8, b: u8, a: u8) -> (c: Self)
        ensures
            c == (Color { r, g, b, a }),
    {
        Color { r, g, b, a }
    }

    /// `R, G, B` with decimal components, the text of the color preview's RGB line.
    pub fn to_rgb_components(&self) -> (s: String)
        ensures
            s@ == rgb_components_string(*self),
    {
        let mut v = dec_chars(self.r);
        v = concat_chars(&v, &chars_of(", "));
        v = concat_chars(&v, &dec_chars(self.g));
        v = concat_chars(&v, &chars_of(", "));
        v = concat_chars(&v, &dec_chars(self.b));
        string_from(&v)
    }

    /// `rgb(R, G, B)` with decimal components.
    pub fn to_rgb_string(&self) -> (s: String)
        ensures
            s@ == rgb_string(*self),
    {
        let mut v = chars_of("rgb(");
        v = concat_chars(&v, &dec_chars(self.r));
        v = concat_chars(&v, &chars_of(", "));
        v = concat_chars(&v, &dec_chars(self.g));
        v = concat_chars(&v, &chars_of(", "));
        v = concat_chars(&v, &dec_chars(self.b));
        v = concat_chars(&v, &chars_of(")"));
        string_from(&v)
    }

    /// `#RRGGBB` in upper-case hexadecimal, or `#RRGGBBAA` when the color is not opaque.
    pub fn to_hex(&self) -> (s: String)
        ensures
            s@ == hex_string(*self),
    {
        let mut v: Vec<char> = Vec::new();
        v.push('#');
        push_hex2(&mut v, self.r);
        push_hex2(&mut v, self.g);
        push_hex2(&mut v, self.b);
        if self.a != 255 {
            push_hex2(&mut v, self.a);
        }
        string_from(&v)
    }
}

fn hex_upper(d: u8) -> (c: char)
    requires
        d < 16,
    ensures
        c == hex_digit_upper(d),
{
    if d < 10 {
        ((0x30 + d) as u8) as char
    } else {
        ((0x41 - 10 + d) as u8) as char
    }
}

fn push_hex2(v: &mut Vec<char>, x: u8)
    ensures
        final(v)@ == old(v)@ + hex2(x),
{
    v.push(hex_upper(x / 16));
    v.push(hex_upper(x % 16));
}

fn dec_chars(x: u8) -> (v: Vec<char>)
    ensures
        v@ == dec_string(x as nat),
{
    let mut v: Vec<char> = Vec::new();
    if x >= 100 {
        v.push(((0x30 + x / 100) as u8) as char);
    }
    if x >= 10 {
        v.push(((0x30 + (x / 10) % 10) as u8) as char);
    }
    v.push(((0x30 + x % 10) as u8) as char);
    proof {
        let n = x as nat;
        if n >= 100 {
            assert(dec_string(n / 100) == seq![((0x30 + n / 100) as u8) as char]);
            assert(dec_string(n / 10) == dec_string(n / 100).push(
                ((0x30 + (n / 10) % 10) as u8) as char,
            ));
        } else if n >= 10 {
            assert(dec_string(n / 10) == seq![((0x30 + n / 10) as u8) as char]);
        }
    }
    v
}

/// Decimal digits of `n`.
pub(crate) fn dec_usize(n: usize) -> (v: Vec<char>)
    ensures
        v@ == dec_string(n as nat),
    decreases n,
{
    if n < 10 {
        let mut v: Vec<char> = Vec::new();
        v.push(((0x30 + n) as u8) as char);
        v
    } else {
        let mut v = dec_usize(n / 10);
        v.push(((0x30 + n % 10) as u8) as char);
        v
    }
}

pub(crate) fn parse_hex_pair_exec(x: u8, y: u8) -> (r: Option<u8>)
    ensures
        r == parse_hex_pair(x, y),
{
    let vx = hex_value(x);
    let vy = hex_value(y);
    if x == 0x2b {
        if vy < 16 {
            Some(vy)
        } else {
            None
        }
    } else if vx < 16 && vy < 16 {
        Some(16 * vx + vy)
    } else {
        None
    }
}

fn hex_value(b: u8) -> (v: u8)
    ensures
        hex_digit_value(b) >= 0 ==> v == hex_digit_value(b),
        hex_digit_value(b) < 0 ==> v == 16,
{
    if 0x30 <= b && b <= 0x39 {
        b - 0x30
    } else if 0x61 <= b && b <= 0x66 {
        b - 0x61 + 10
    } else if 0x41 <= b && b <= 0x46 {
        b - 0x41 + 10
    } else {
        16
    }
}

fn hex_color(hb: &[u8]) -> (r: Option<Option<Color>>)
    requires
        !(hex_parse(hb@) is CutsCharacter),
    ensures
        match hex_parse(hb@) {
            HexParse::Parsed(o) => r == Some(o),
            _ => r is None,
        },
{
    if hb.len() == 3 {
        let r = match parse_hex_pair_exec(hb[0], hb[0]) {
            Some(r) => r,
            None => return Some(None),
        };
        let g = match parse_hex_pair_exec(hb[1], hb[1]) {
            Some(g) => g,
            None => return Some(None),
        };
        let b = match parse_hex_pair_exec(hb[2], hb[2]) {
            Some(b) => b,
            None => return Some(None),
        };
        Some(Some(Color { r, g, b, a: 255 }))
    } else if hb.len() == 6 || hb.len() == 8 {
        let r = match parse_hex_pair_exec(hb[0], hb[1]) {
            Some(r) => r,
            None => return Some(None),
        };
        let g = match parse_hex_pair_exec(hb[2], hb[3]) {
            Some(g) => g,
            None => return Some(None),
        };
        let b = match parse_hex_pair_exec(hb[4], hb[5]) {
            Some(b) => b,
            None => return Some(None),
        };
        if hb.len() == 6 {
            return Some(Some(Color { r, g, b, a: 255 }));
        }
        let a = match parse_hex_pair_exec(hb[6], hb[7]) {
            Some(a) => a,
            None => return Some(None),
        };
        Some(Some(Color { r, g, b, a }))
    } else {
        None
    }
}

fn parse_dec(s: &Vec<char>) -> (r: Option<u8>)
    ensures
        r == parse_dec_u8(s@),
{
    if s.len() == 0 {
        return None;
    }
    if s.len() == 1 && (s[0] == '+' || s[0] == '-') {
        proof {
            assert(s@ == seq![s@[0]]);
        }
        return None;
    }
    let first: usize = if s[0] == '+' {
        1
    } else {
        0
    };
    let digits = sub_vec(s, first, s.len());
    let ghost d = digits@;
    proof {
        if s@ == seq!['+'] || s@ == seq!['-'] {
            assert(s@.len() == 1);
            assert(s@[0] == '+' || s@[0] == '-');
        }
        assert(d == if s@[0] == '+' {
            s@.drop_first()
        } else {
            s@
        });
        assert(s@ != seq!['+'] && s@ != seq!['-']);
    }
    let mut value: u16 = 0;
    let mut i: usize = 0;
    while i < digits.len()
        invariant
            i <= digits.len(),
            d == digits@,
            s.len() > 0,
            s@ != seq!['+'] && s@ != seq!['-'],
            d == if s@[0] == '+' {
                s@.drop_first()
            } else {
                s@
            },
            all_dec_digits(d.take(i as int)),
            value as int == capped(dec_value(d.take(i as int))),
        decreases digits.len() - i,
    {
        let c = digits[i];
        if !('0' <= c && c <= '9') {
            proof {
                assert(d[i as int] == c);
                assert(!all_dec_digits(d));
            }
            return None;
        }
        proof {
            lemma_dec_step(d.take(i as int), c, value as int);
            assert(d.take(i as int).push(c) == d.take(i + 1));
        }
        let next: u16 = value * 10 + ((c as u32 - 0x30) as u16);
        value = if next > 255 {
            256
        } else {
            next
        };
        i = i + 1;
    }
    proof {
        assert(d.take(d.len() as int) == d);
    }
    if value > 255 {
        None
    } else {
        Some(value as u8)
    }
}

/// `v`, or 256 when it is larger than 255.
spec fn capped(v: int) -> int {
    if v > 255 {
        256
    } else {
        v
    }
}

proof fn lemma_dec_step(p: Seq<char>, c: char, v: int)
    requires
        all_dec_digits(p),
        '0' <= c <= '9',
        v == capped(dec_value(p)),
    ensures
        all_dec_digits(p.push(c)),
        capped(10 * v + (c as int - 0x30)) == capped(dec_value(p.push(c))),
        10 * v + (c as int - 0x30) <= 2569,
{
    let q = p.push(c);
    assert(q.drop_last() == p);
    assert(dec_value(q) == 10 * dec_value(p) + (c as int - 0x30));
    lemma_dec_value_nonneg(p);
    assert forall|i: int| 0 <= i < q.len() implies '0' <= #[trigger] q[i] <= '9' by {
        if i < p.len() {
            assert(q[i] == p[i]);
        }
    }
}

proof fn lemma_dec_value_nonneg(d: Seq<char>)
    requires
        all_dec_digits(d),
    ensures
        dec_value(d) >= 0,
    decreases d.len(),
{
    if d.len() > 0 {
        assert(all_dec_digits(d.drop_last())) by {
            assert forall|i: int| 0 <= i < d.drop_last().len() implies '0' <= #[trigger] d.drop_last()[i]
                <= '9' by {
                assert(d.drop_last()[i] == d[i]);
            }
        }
        lemma_dec_value_nonneg(d.drop_last());
        assert('0' <= d[d.len() - 1]);
    }
}

pub(crate) fn cuts_at(hb: &[u8], i: usize) -> (b: bool)
    requires
        0 < i <= hb.len(),
    ensures
        b == !starts_char(hb@, i as int),
{
    i < hb.len() && 0x80 <= hb[i] && hb[i] <= 0xbf
}

fn hex_cuts(hb: &[u8]) -> (b: bool)
    ensures
        b == (hex_parse(hb@) is CutsCharacter),
{
    if hb.len() == 3 {
        if cuts_at(hb, 1) {
            return true;
        }
        if parse_hex_pair_exec(hb[0], hb[0]).is_none() {
            return false;
        }
        cuts_at(hb, 2)
    } else if hb.len() == 6 || hb.len() == 8 {
        if cuts_at(hb, 2) {
            return true;
        }
        if parse_hex_pair_exec(hb[0], hb[1]).is_none() {
            return false;
        }
        if cuts_at(hb, 4) {
            return true;
        }
        if parse_hex_pair_exec(hb[2], hb[3]).is_none() {
            return false;
        }
        hb.len() == 8 && cuts_at(hb, 6)
    } else {
        false
    }
}

/// Whether parsing `text` would cut a hexadecimal component inside a multi-byte
/// character, where `parse_color` may not be called.
pub fn hex_cuts_inside_character(text: &str) -> (b: bool)
    ensures
        b == hex_cuts_character(text@),
{
    let t = trim_str(text);
    if t.len() > 0 && t[0] == '#' {
        let rest = sub_vec(&t, 1, t.len());
        let rest_string = string_from(&rest);
        let hb = rest_string.as_str().as_bytes();
        proof {
            assert(rest@ == t@.drop_first());
        }
        hex_cuts(hb)
    } else {
        false
    }
}

/// What parsing `text` may give: the color of its syntax, or for `rgba(..)` the three
/// components with an alpha that `parse_alpha` returned for the alpha text.
pub open spec fn color_parse_result<F: Fn(String) -> Option<u8>>(
    text: Seq<char>,
    parse_alpha: F,
    r: Option<Color>,
) -> bool {
    match color_syntax(text) {
        ColorSyntax::Done(o) => r == o,
        ColorSyntax::WithAlpha(cr, cg, cb, alpha_text) => exists|s: String, a: Option<u8>|
            {
                &&& s@ == alpha_text
                &&& call_ensures(parse_alpha, (s,), a)
                &&& r == match a {
                    Some(x) => Some(Color { r: cr, g: cg, b: cb, a: x }),
                    None => None,
                }
            },
    }
}

/// Parse a color text: `#RGB`, `#RRGGBB`, `#RRGGBBAA`, `rgb(r, g, b)` or
/// `rgba(r, g, b, a)`, surrounding whitespace ignored.
///
/// The alpha component of `rgba(..)` is a fraction; `parse_alpha` reads it and gives
/// the alpha byte, or none when it is no number.
pub fn parse_color<F: Fn(String) -> Option<u8>>(text: &str, parse_alpha: F) -> (r: Option<Color>)
    requires
        !hex_cuts_character(text@),
        forall|s: String| call_requires(parse_alpha, (s,)),
    ensures
        color_parse_result(text@, parse_alpha, r),
{
    let t = trim_str(text);
    if t.len() > 0 && t[0] == '#' {
        let rest = sub_vec(&t, 1, t.len());
        let rest_string = string_from(&rest);
        let hb = rest_string.as_str().as_bytes();
        proof {
            assert(rest@ == t@.drop_first());
        }
        if let Some(parsed) = hex_color(hb) {
            return parsed;
        }
    }
    let rgb = chars_of("rgb(");
    let rgba = chars_of("rgba(");
    if starts_with(&t, &rgb) || starts_with(&t, &rgba) {
        let start: usize = if starts_with(&t, &rgba) {
            5
        } else {
            4
        };
        let end = match last_index(&t, ')', t.len()) {
            Some(e) => e,
            None => return None,
        };
        proof {
            lemma_last_index_range(t@, ')', t.len() as int);
        }
        if end < start {
            return None;
        }
        let values = sub_vec(&t, start, end);
        let parts = split_trimmed(&values, ',');
        if parts.len() >= 3 {
            let r = match parse_dec(&parts[0]) {
                Some(v) => v,
                None => return None,
            };
            let g = match parse_dec(&parts[1]) {
                Some(v) => v,
                None => return None,
            };
            let b = match parse_dec(&parts[2]) {
                Some(v) => v,
                None => return None,
            };
            if parts.len() >= 4 {
                let alpha_text = string_from(&parts[3]);
                let ghost s = alpha_text;
                let a = parse_alpha(alpha_text);
                return match a {
                    Some(x) => Some(Color { r, g, b, a: x }),
                    None => None,
                };
            }
            return Some(Color { r, g, b, a: 255 });
        }
    }
    None
}


proof fn lemma_hex_digit(d: u8)
    requires
        d < 16,
    ensures
        '\0' <= hex_digit_upper(d) <= '\u{7f}',
        !crate::text::is_ws(hex_digit_upper(d)),
        hex_digit_value(hex_digit_upper(d) as u8) == d,
        hex_digit_upper(d) as u8 != 0x2b,
{
}

proof fn lemma_hex_pair(x: u8)
    ensures
        parse_hex_pair(hex_digit_upper(x / 16) as u8, hex_digit_upper(x % 16) as u8) == Some(x),
{
    lemma_hex_digit(x / 16);
    lemma_hex_digit(x % 16);
    assert(16 * (x / 16) + x % 16 == x);
}

/// Writing a color in hexadecimal and parsing the text gives the color back.
pub proof fn law_hex_roundtrip(c: Color)
    ensures
        !hex_cuts_character(hex_string(c)),
        color_syntax(hex_string(c)) == ColorSyntax::Done(Some(c)),
{
    let s = hex_string(c);
    lemma_hex_digit(c.r / 16);
    lemma_hex_digit(c.r % 16);
    lemma_hex_digit(c.g / 16);
    lemma_hex_digit(c.g % 16);
    lemma_hex_digit(c.b / 16);
    lemma_hex_digit(c.b % 16);
    lemma_hex_digit(c.a / 16);
    lemma_hex_digit(c.a % 16);
    lemma_hex_pair(c.r);
    lemma_hex_pair(c.g);
    lemma_hex_pair(c.b);
    lemma_hex_pair(c.a);
    assert(s.len() > 0 && !crate::text::is_ws(s[0]));
    assert(!crate::text::is_ws(s.last()));
    assert(trim_start(s) == s);
    assert(trim(s) == s);
    let rest = s.drop_first();
    assert(vstd::utf8::is_ascii_chars(rest));
    vstd::utf8::is_ascii_chars_encode_utf8(rest);
    let hb = encode_utf8(rest);
    assert(hb.len() == rest.len());
    assert forall|i: int| 0 <= i < hb.len() implies hb[i] == rest[i] as u8 && hb[i] < 0x80 by {
        assert(rest[i] as u8 == hb[i]);
    }
    assert(hex_part(s) == hex_parse(hb));
}


proof fn lemma_dec_string(n: nat)
    ensures
        dec_string(n).len() >= 1,
        all_dec_digits(dec_string(n)),
        dec_value(dec_string(n)) == n,
    decreases n,
{
    if n >= 10 {
        lemma_dec_string(n / 10);
        let p = dec_string(n / 10);
        let q = dec_string(n);
        assert(q == p.push(((0x30 + n % 10) as u8) as char));
        assert(q.drop_last() == p);
        assert forall|i: int| 0 <= i < q.len() implies '0' <= #[trigger] q[i] <= '9' by {
            if i < p.len() {
                assert(q[i] == p[i]);
            }
        }
        let ch = ((0x30 + n % 10) as u8) as char;
        assert(ch as int == 0x30 + n % 10);
        assert(q.last() == ch);
        assert(dec_value(q) == 10 * dec_value(p) + (n % 10));
        assert(10 * (n / 10) + n % 10 == n);
    } else {
        let q = dec_string(n);
        let ch = ((0x30 + n) as u8) as char;
        assert(ch as int == 0x30 + n);
        assert(q.last() == ch);
        assert(q.drop_last() =~= Seq::<char>::empty());
        assert(dec_value(q.drop_last()) == 0);
    }
}

/// A sequence of digits has no whitespace, comma, sign or `#` in it.
proof fn lemma_digits_plain(d: Seq<char>)
    requires
        all_dec_digits(d),
    ensures
        forall|i: int|
            0 <= i < d.len() ==> !crate::text::is_ws(#[trigger] d[i]) && d[i] != ',' && d[i] != '+'
                && d[i] != '-',
{
    assert forall|i: int| 0 <= i < d.len() implies !crate::text::is_ws(#[trigger] d[i]) && d[i] != ','
        && d[i] != '+' && d[i] != '-' by {
        assert('0' <= d[i] <= '9');
    }
}

proof fn lemma_parse_dec_string(n: nat)
    requires
        n <= 255,
    ensures
        parse_dec_u8(dec_string(n)) == Some(n as u8),
{
    lemma_dec_string(n);
    let d = dec_string(n);
    lemma_digits_plain(d);
    assert(d[0] != '+');
    if d == seq!['+'] || d == seq!['-'] {
        assert(d[0] == '+' || d[0] == '-');
    }
}

/// The last `c` of `a + [c] + b`, when `b` holds no `c`, is the one between them.
proof fn lemma_last_index_split(a: Seq<char>, b: Seq<char>, c: char, n: int)
    requires
        forall|i: int| 0 <= i < b.len() ==> b[i] != c,
        a.len() + 1 <= n <= a.len() + 1 + b.len(),
    ensures
        last_index_of(a + seq![c] + b, c, n) == a.len(),
    decreases n,
{
    let s = a + seq![c] + b;
    if n > a.len() + 1 {
        assert(s[n - 1] == b[n - 1 - a.len() - 1]);
        lemma_last_index_split(a, b, c, n - 1);
    } else {
        assert(s[n - 1] == c);
    }
}

proof fn lemma_last_index_none(b: Seq<char>, c: char, n: int)
    requires
        forall|i: int| 0 <= i < b.len() ==> b[i] != c,
        0 <= n <= b.len(),
    ensures
        last_index_of(b, c, n) == -1,
    decreases n,
{
    if n > 0 {
        lemma_last_index_none(b, c, n - 1);
    }
}

proof fn lemma_split_single(b: Seq<char>, c: char)
    requires
        forall|i: int| 0 <= i < b.len() ==> b[i] != c,
    ensures
        split_on(b, c) == seq![b],
{
    lemma_last_index_none(b, c, b.len() as int);
}

proof fn lemma_split_push(a: Seq<char>, b: Seq<char>, c: char)
    requires
        forall|i: int| 0 <= i < b.len() ==> b[i] != c,
    ensures
        split_on(a + seq![c] + b, c) == split_on(a, c).push(b),
{
    let s = a + seq![c] + b;
    lemma_last_index_split(a, b, c, s.len() as int);
    assert(s.subrange(0, a.len() as int) == a);
    assert(s.subrange(a.len() as int + 1, s.len() as int) == b);
}

proof fn lemma_trim_digits(d: Seq<char>)
    requires
        all_dec_digits(d),
        d.len() >= 1,
    ensures
        trim(seq![' '] + d) == d,
        trim(d) == d,
{
    lemma_digits_plain(d);
    let sd = seq![' '] + d;
    assert(crate::text::is_ws(' '));
    assert(sd.drop_first() == d);
    assert(trim_start(sd) == trim_start(d));
    assert(trim_start(d) == d);
    assert(trim_end(d) == d);
}

/// Writing a color as `rgb(R, G, B)` and parsing the text gives the color back, opaque.
pub proof fn law_rgb_roundtrip(c: Color)
    ensures
        !hex_cuts_character(rgb_string(c)),
        color_syntax(rgb_string(c)) == ColorSyntax::Done(Some(Color { a: 255, ..c })),
{
    reveal_strlit("rgb(");
    reveal_strlit("rgba(");
    reveal_strlit(", ");
    reveal_strlit(")");
    let dr = dec_string(c.r as nat);
    let dg = dec_string(c.g as nat);
    let db = dec_string(c.b as nat);
    lemma_dec_string(c.r as nat);
    lemma_dec_string(c.g as nat);
    lemma_dec_string(c.b as nat);
    lemma_digits_plain(dr);
    lemma_digits_plain(dg);
    lemma_digits_plain(db);
    let s = rgb_string(c);
    let values = dr + ", "@ + dg + ", "@ + db;
    assert(s == "rgb("@ + values + ")"@);
    assert(s[0] == 'r');
    assert(s.last() == ')');
    assert(!crate::text::is_ws(s[0]));
    assert(!crate::text::is_ws(s.last()));
    assert(trim_start(s) == s);
    assert(trim(s) == s);
    assert(hex_part(s) is NotHex);
    assert(!has_prefix(s, "rgba("@)) by {
        if has_prefix(s, "rgba("@) {
            assert(s.subrange(0, 5)[3] == s[3]);
        }
    }
    assert(s.subrange(0, 4) == "rgb("@);
    assert(rgb_start(s) == 4);
    assert(last_index_of(s, ')', s.len() as int) == s.len() - 1);
    assert(s.subrange(4, s.len() - 1) == values);
    let sg = seq![' '] + dg;
    let sb = seq![' '] + db;
    assert(values == (dr + seq![','] + sg) + seq![','] + sb);
    assert forall|i: int| 0 <= i < sb.len() implies sb[i] != ',' by {
        if i > 0 {
            assert(sb[i] == db[i - 1]);
        }
    }
    assert forall|i: int| 0 <= i < sg.len() implies sg[i] != ',' by {
        if i > 0 {
            assert(sg[i] == dg[i - 1]);
        }
    }
    lemma_split_push(dr + seq![','] + sg, sb, ',');
    lemma_split_push(dr, sg, ',');
    lemma_split_single(dr, ',');
    let parts = split_on(values, ',');
    assert(parts == seq![dr, sg, sb]);
    lemma_trim_digits(dr);
    lemma_trim_digits(dg);
    lemma_trim_digits(db);
    lemma_parse_dec_string(c.r as nat);
    lemma_parse_dec_string(c.g as nat);
    lemma_parse_dec_string(c.b as nat);
}

} // verus!
