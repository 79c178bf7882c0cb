//! `#rrggbb` colors.
use vstd::prelude::*;
use vstd::utf8::*;

use crate::text::{self, chars_of, join3, trim};

verus! {

/// An `#rrggbb` color.
#[derive(Debug, Clone, Copy, PartialEq, Eq, Structural)]
pub struct Rgb {
    pub r: u8,
    pub g: u8,
    pub b: u8,
}

/// The value of a hexadecimal digit of either case.
pub open spec fn hex_value(c: char) -> Option<u8> {
    if '0' <= c <= '9' {
        Some((c as u8 - 48) as u8)
    } else if 'a' <= c <= 'f' {
        Some((c as u8 - 87) as u8)
    } else if 'A' <= c <= 'F' {
        Some((c as u8 - 55) as u8)
    } else {
        None
    }
}

/// The lower-case hexadecimal digit for a value below 16.
pub open spec fn hex_digit(v: u8) -> char {
    if v < 10 {
        ((48 + v) as u8) as char
    } else {
        ((87 + v) as u8) as char
    }
}

/// The byte written by two hexadecimal digits.
pub open spec fn hex_byte(high: char, low: char) -> Option<u8> {
    match (hex_value(high), hex_value(low)) {
        (Some(h), Some(l)) => Some((16 * h + l) as u8),
        _ => None,
    }
}

/// What a color string stands for, or why it is refused.
pub open spec fn color_of(s: Seq<char>) -> Result<Rgb, Seq<char>> {
    let t = text::trimmed(s);
    if t.len() == 0 || t[0] != '#' {
        Err("color '"@ + t + "' must start with '#'"@)
    } else if encode_utf8(t.drop_first()).len() != 6 {
        Err("color '"@ + t + "' must be in #rrggbb form (6 hex digits)"@)
    } else if t.len() != 7 {
        Err("color '"@ + t + "' has invalid hex digits"@)
    } else {
        match (hex_byte(t[1], t[2]), hex_byte(t[3], t[4]), hex_byte(t[5], t[6])) {
            (Some(r), Some(g), Some(b)) => Ok(Rgb { r, g, b }),
            _ => Err("color '"@ + t + "' has invalid hex digits"@),
        }
    }
}

/// The `#rrggbb` notation of a color.
pub open spec fn hex_notation(c: Rgb) -> Seq<char> {
    seq![
        '#',
        hex_digit((c.r / 16) as u8),
        hex_digit((c.r % 16) as u8),
        hex_digit((c.g / 16) as u8),
        hex_digit((c.g % 16) as u8),
        hex_digit((c.b / 16) as u8),
        hex_digit((c.b % 16) as u8),
    ]
}

fn read_hex_digit(c: char) -> (r: Option<u8>)
    ensures
        r == hex_value(c),
        r matches Some(v) ==> v < 16,
{
    if '0' <= c && c <= '9' {
        Some(c as u8 - 48)
    } else if 'a' <= c && c <= 'f' {
        Some(c as u8 - 87)
    } else if 'A' <= c && c <= 'F' {
        Some(c as u8 - 55)
    } else {
        None
    }
}

fn read_hex_byte(high: char, low: char) -> (r: Option<u8>)
    ensures
        r == hex_byte(high, low),
{
    match (read_hex_digit(high), read_hex_digit(low)) {
        (Some(h), Some(l)) => Some(16 * h + l),
        _ => None,
    }
}

fn write_hex_digit(v: u8) -> (r: char)
    requires
        v < 16,
    ensures
        r == hex_digit(v),
{
    if v < 10 {
        (48 + v) as char
    } else {
        (87 + v) as char
    }
}

/// Every character takes at least one byte, a non-ASCII one more.
pub proof fn lemma_utf8_length(s: Seq<char>)
    ensures
        encode_utf8(s).len() >= s.len(),
        encode_utf8(s).len() == s.len() <==> is_ascii_chars(s),
    decreases s.len(),
{
    if s.len() > 0 {
        lemma_utf8_length(s.drop_first());
        let rest = s.drop_first();
        char_is_scalar(s[0]);
        assert(encode_utf8(s) == encode_scalar(s[0] as u32) + encode_utf8(rest));
        if encode_utf8(s).len() == s.len() {
            assert(encode_scalar(s[0] as u32).len() == 1);
            text::lemma_char(s[0]);
            assert(is_ascii_chars(rest));
            assert forall|i: int| 0 <= i < s.len() implies '\0' <= #[trigger] s[i] <= '\u{7f}' by {
                text::lemma_char(s[i]);
                if i > 0 {
                    assert(s[i] == rest[i - 1]);
                }
            }
        } else if is_ascii_chars(s) {
            is_ascii_chars_encode_utf8(s);
        }
    }
}

impl Rgb {
    /// Reads an `#rrggbb` color; white space around it does not matter.
    pub fn parse(s: &str) -> (r: Result<Rgb, String>)
        ensures
            match (r, color_of(s@)) {
                (Ok(c), Ok(d)) => c == d,
                (Err(e), Err(m)) => e@ == m,
                _ => false,
            },
    {
        let t = trim(s);
        let chars = chars_of(t.as_str());
        if chars.len() == 0 || chars[0] != '#' {
            return Err(join3("color '", t.as_str(), "' must start with '#'"));
        }
        let bytes = t.as_str().as_bytes();
        assert(bytes@.len() == 1 + encode_utf8(t@.drop_first()).len()) by {
            lemma_utf8_length(seq!['#']);
            assert(encode_utf8(t@) == encode_scalar(t@[0] as u32) + encode_utf8(t@.drop_first()));
        }
        if bytes.len() != 7 {
            return Err(
                join3("color '", t.as_str(), "' must be in #rrggbb form (6 hex digits)"),
            );
        }
        proof {
            lemma_utf8_length(t@.drop_first());
        }
        if chars.len() == 7 {
            let r = read_hex_byte(chars[1], chars[2]);
            let g = read_hex_byte(chars[3], chars[4]);
            let b = read_hex_byte(chars[5], chars[6]);
            if let (Some(r), Some(g), Some(b)) = (r, g, b) {
                return Ok(Rgb { r, g, b });
            }
        }
        Err(join3("color '", t.as_str(), "' has invalid hex digits"))
    }

    /// The `#rrggbb` notation, in lower case.
    pub fn to_hex(self) -> (r: String)
        ensures
            r@ == hex_notation(self),
    {
        let mut s = String::new();
        s.push('#');
        s.push(write_hex_digit(self.r / 16));
        s.push(write_hex_digit(self.r % 16));
        s.push(write_hex_digit(self.g / 16));
        s.push(write_hex_digit(self.g % 16));
        s.push(write_hex_digit(self.b / 16));
        s.push(write_hex_digit(self.b % 16));
        s
    }
}

proof fn lemma_hex_pair(v: u8)
    ensures
        hex_byte(hex_digit((v / 16) as u8), hex_digit((v % 16) as u8)) == Some(v),
{
    let h = (v / 16) as u8;
    let l = (v % 16) as u8;
    assert(hex_value(hex_digit(h)) == Some(h));
    assert(hex_value(hex_digit(l)) == Some(l));
}

/// Reading back what [`Rgb::to_hex`] writes gives the color itself.
pub proof fn color_round_trip(c: Rgb)
    ensures
        color_of(hex_notation(c)) == Ok::<Rgb, Seq<char>>(c),
{
    let s = hex_notation(c);
    lemma_hex_pair(c.r);
    lemma_hex_pair(c.g);
    lemma_hex_pair(c.b);
    assert(text::trimmed_start(s) == s);
    assert(text::trimmed_end(s) == s);
    assert(is_ascii_chars(s.drop_first()));
    lemma_utf8_length(s.drop_first());
}

/// The hexadecimal digits are the usual ones, in either case, and no other
/// character is one.
pub proof fn hex_digits_are_standard(c: char, v: u8)
    requires
        v < 16,
    ensures
        hex_value(c) == Some(v) <==> c == "0123456789abcdef"@[v as int] || c
            == "0123456789ABCDEF"@[v as int],
        hex_value(c) matches Some(w) ==> w < 16,
        hex_digit(v) == "0123456789abcdef"@[v as int],
{
    reveal_strlit("0123456789abcdef");
    reveal_strlit("0123456789ABCDEF");
    text::lemma_char(c);
    assert(v == 0 || v == 1 || v == 2 || v == 3 || v == 4 || v == 5 || v == 6 || v == 7 || v == 8
        || v == 9 || v == 10 || v == 11 || v == 12 || v == 13 || v == 14 || v == 15);
}

/// A color is a number sign and six hexadecimal digits, whatever white space
/// is around it. The channels are red, green and blue in this order, each
/// given by two digits, the higher one first.
pub proof fn color_is_six_digits(s: Seq<char>)
    ensures
        color_of(s) is Ok <==> text::trimmed(s).len() == 7 && text::trimmed(s)[0] == '#' && forall|
            i: int,
        |
            1 <= i < 7 ==> hex_value(#[trigger] text::trimmed(s)[i]) is Some,
        color_of(s) matches Ok(c) ==> {
            let t = text::trimmed(s);
            &&& c.r == 16 * hex_value(t[1])->0 + hex_value(t[2])->0
            &&& c.g == 16 * hex_value(t[3])->0 + hex_value(t[4])->0
            &&& c.b == 16 * hex_value(t[5])->0 + hex_value(t[6])->0
        },
{
    let t = text::trimmed(s);
    if t.len() > 0 && t[0] == '#' {
        lemma_utf8_length(t.drop_first());
        if t.len() == 7 && forall|i: int| 1 <= i < 7 ==> hex_value(#[trigger] t[i]) is Some {
            assert(is_ascii_chars(t.drop_first())) by {
                assert forall|i: int| 0 <= i < 6 implies '\0' <= #[trigger] t.drop_first()[i]
                    <= '\u{7f}' by {
                    assert(hex_value(t[i + 1]) is Some);
                    text::lemma_char(t[i + 1]);
                }
            }
            assert(hex_value(t[1]) is Some && hex_value(t[2]) is Some);
            assert(hex_value(t[3]) is Some && hex_value(t[4]) is Some);
            assert(hex_value(t[5]) is Some && hex_value(t[6]) is Some);
        }
        if color_of(s) is Ok {
            assert forall|i: int| 1 <= i < 7 implies hex_value(#[trigger] t[i]) is Some by {
                assert(i == 1 || i == 2 || i == 3 || i == 4 || i == 5 || i == 6);
            }
        }
    }
}

} // verus!
