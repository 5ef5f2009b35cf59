//! Character-level primitives shared by the scalar decoder and the text
//! scanner: the masked-ASCII view of a byte and the conversion of a code
//! point to a `char`.

use vstd::prelude::*;

verus! {

/// Unicode scalar values: code points outside the UTF-16 surrogate range
/// and no larger than the last code point.
pub open spec fn is_unicode_scalar(v: int) -> bool {
    (0 <= v < 0xD800) || (0xE000 <= v <= 0x10FFFF)
}

/// The character a byte shows as ASCII: the byte masked to its low 7 bits.
pub open spec fn ascii_char(b: u8) -> char {
    ((b & 0x7f) as char)
}

/// Relies on `char::from_u32`: it returns `Some` exactly on Unicode scalar
/// values, and the returned character's code point is the argument itself.
#[verifier::external_body]
pub(crate) fn char_from_u32(v: u32) -> (r: Option<char>)
    ensures
        is_unicode_scalar(v as int) ==> r == Some(v as char),
        !is_unicode_scalar(v as int) ==> r is None,
{
    char::from_u32(v)
}

/// Relies on `String::push`: it appends exactly the one character.
#[verifier::external_body]
pub(crate) fn push_char(s: &mut String, c: char)
    ensures
        final(s)@ == old(s)@.push(c),
{
    s.push(c);
}

/// The ASCII character of a byte, as executable code.
pub fn ascii_char_of(b: u8) -> (c: char)
    ensures
        c == ascii_char(b),
{
    (b & 0x7f) as char
}

/// A string of exactly the one character.
pub fn char_string(c: char) -> (s: String)
    ensures
        s@ == seq![c],
{
    let mut s = String::new();
    push_char(&mut s, c);
    proof {
        assert(s@ =~= seq![c]);
    }
    s
}

/// Whether `x`,`y` is a valid two-byte UTF-8 sequence.
pub open spec fn is_utf8_pair(x: u8, y: u8) -> bool {
    0xC2 <= x <= 0xDF && 0x80 <= y <= 0xBF
}

/// The character a valid two-byte UTF-8 sequence encodes.
pub open spec fn utf8_pair_char(x: u8, y: u8) -> char {
    (((x - 0xC0) * 64 + (y - 0x80)) as char)
}

/// What decoding the two bytes `x`,`y` as UTF-8 yields: two characters
/// when both are ASCII, one for a valid two-byte sequence, and nothing at
/// all otherwise.
pub open spec fn utf8_pair_str(x: u8, y: u8) -> Seq<char> {
    if x < 0x80 && y < 0x80 {
        seq![x as char, y as char]
    } else if is_utf8_pair(x, y) {
        seq![utf8_pair_char(x, y)]
    } else {
        Seq::empty()
    }
}

/// The string of the two bytes decoded as UTF-8, empty on failure.
pub fn utf8_pair_string(x: u8, y: u8) -> (s: String)
    ensures
        s@ == utf8_pair_str(x, y),
{
    let mut s = String::new();
    if x < 0x80 && y < 0x80 {
        push_char(&mut s, x as char);
        push_char(&mut s, y as char);
        proof {
            assert(s@ =~= seq![x as char, y as char]);
        }
    } else if 0xC2 <= x && x <= 0xDF && 0x80 <= y && y <= 0xBF {
        let code: u32 = ((x as u32) - 0xC0) * 64 + ((y as u32) - 0x80);
        let c = match char_from_u32(code) {
            Some(c) => c,
            None => ' ',
        };
        push_char(&mut s, c);
        proof {
            assert(s@ =~= seq![utf8_pair_char(x, y)]);
        }
    }
    s
}

/// The first character of the pair decode, a space when the decode fails.
pub open spec fn utf8_pair_first(x: u8, y: u8) -> char {
    if utf8_pair_str(x, y).len() > 0 {
        utf8_pair_str(x, y)[0]
    } else {
        ' '
    }
}

/// The second character of the pair decode, NUL when there is none.
pub open spec fn utf8_pair_second(x: u8, y: u8) -> char {
    if utf8_pair_str(x, y).len() > 1 {
        utf8_pair_str(x, y)[1]
    } else {
        '\0'
    }
}

/// The first and second characters of the pair decode, with their
/// placeholders (a space, NUL) where the decode yields fewer than two.
pub fn utf8_pair_chars(x: u8, y: u8) -> (r: (char, char))
    ensures
        r.0 == utf8_pair_first(x, y),
        r.1 == utf8_pair_second(x, y),
{
    if x < 0x80 && y < 0x80 {
        (x as char, y as char)
    } else if 0xC2 <= x && x <= 0xDF && 0x80 <= y && y <= 0xBF {
        let code: u32 = ((x as u32) - 0xC0) * 64 + ((y as u32) - 0x80);
        let c = match char_from_u32(code) {
            Some(c) => c,
            None => ' ',
        };
        (c, '\0')
    } else {
        (' ', '\0')
    }
}

/// The one-character string a 16-bit code unit decodes to under UTF-16:
/// empty for a lone surrogate half.
pub open spec fn utf16_char_str(unit: int) -> Seq<char> {
    if 0xD800 <= unit <= 0xDFFF {
        Seq::empty()
    } else {
        seq![unit as char]
    }
}

/// The string of one UTF-16 code unit, empty on a surrogate half.
pub fn utf16_char_string(unit: u16) -> (s: String)
    ensures
        s@ == utf16_char_str(unit as int),
{
    let mut s = String::new();
    if unit < 0xD800 || unit >= 0xE000 {
        let c = match char_from_u32(unit as u32) {
            Some(c) => c,
            None => ' ',
        };
        push_char(&mut s, c);
        proof {
            assert(s@ =~= seq![(unit as int) as char]);
        }
    }
    s
}

/// The one-character string a 32-bit value decodes to under UTF-32: empty
/// unless the value is a Unicode scalar value.
pub open spec fn utf32_char_str(v: int) -> Seq<char> {
    if is_unicode_scalar(v) {
        seq![v as char]
    } else {
        Seq::empty()
    }
}

/// The string of one UTF-32 value, empty when it is no scalar value.
pub fn utf32_char_string(v: u32) -> (s: String)
    ensures
        s@ == utf32_char_str(v as int),
{
    let mut s = String::new();
    match char_from_u32(v) {
        Some(c) => {
            push_char(&mut s, c);
            proof {
                assert(s@ =~= seq![(v as int) as char]);
            }
        },
        None => {},
    }
    s
}

} // verus!
