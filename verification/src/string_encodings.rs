//! The text scanner: one decoded string per encoding and byte order,
//! produced by walking a variable-width cursor across the whole window.
//!
//! The byte-order views of UTF-8, UTF-16 and UTF-32 here reinterpret raw
//! byte pairs and quadruples rather than performing a true endian-aware
//! decode; the exact compositions are preserved as observable behaviour.

use crate::chars::{
    ascii_char, ascii_char_of, char_from_u32, is_unicode_scalar, push_char, utf8_pair_chars,
    utf8_pair_first, utf8_pair_second,
};
use vstd::prelude::*;

verus! {

/// One long decoded string per encoding and byte order, covering the
/// whole window; ASCII does not depend on byte order.
pub struct TextDataInPosition {
    pub text_ascii: String,
    pub text_le_utf8: String,
    pub text_le_utf16: String,
    pub text_le_utf32: String,
    pub text_be_utf8: String,
    pub text_be_utf16: String,
    pub text_be_utf32: String,
}

/// The ASCII view of a window: every byte masked to its low 7 bits, one
/// character per byte.
pub open spec fn ascii_text(s: Seq<u8>) -> Seq<char> {
    s.map_values(|b: u8| ascii_char(b))
}

/// Maps every byte of the window to its masked-ASCII character.
pub fn bytes_to_ascii(bytes: &[u8]) -> (r: String)
    ensures
        r@ == ascii_text(bytes@),
        r@.len() == bytes@.len(),
        forall|i: int| 0 <= i < bytes@.len() ==> r@[i] == ascii_char(bytes@[i]),
{
    let mut r = String::new();
    let mut i: usize = 0;
    while i < bytes.len()
        invariant
            i <= bytes@.len(),
            r@.len() == i,
            forall|k: int| 0 <= k < i ==> r@[k] == ascii_char(bytes@[k]),
        decreases bytes@.len() - i,
    {
        let c = ascii_char_of(bytes[i]);
        push_char(&mut r, c);
        i = i + 1;
    }
    proof {
        assert(r@ =~= ascii_text(bytes@));
    }
    r
}

/// The single character a lone byte decodes to as UTF-8: an ASCII byte
/// gives itself, anything else fails to a space.
pub open spec fn utf8_single_char(x: u8) -> char {
    if x < 0x80 {
        x as char
    } else {
        ' '
    }
}

/// The byte pair the UTF-8 scanner decodes at position `p`: the big-endian
/// view swaps the two bytes before reading them as UTF-8 octets.
pub open spec fn utf8_ordered_pair(s: Seq<u8>, big_endian: bool, p: int) -> (u8, u8) {
    if big_endian {
        (s[p + 1], s[p])
    } else {
        (s[p], s[p + 1])
    }
}

/// What the UTF-8 scanner emits at position `p`: the one-byte character
/// when the pair decode starts with that same character, else the pair
/// decode's first character, else both of its characters.
pub open spec fn utf8_step_chars(s: Seq<u8>, big_endian: bool, p: int) -> Seq<char> {
    let (a, b) = utf8_ordered_pair(s, big_endian, p);
    let c1 = utf8_single_char(s[p]);
    let c21 = utf8_pair_first(a, b);
    let c22 = utf8_pair_second(a, b);
    if c1 == c21 {
        seq![c1]
    } else if c22 == '\0' {
        seq![c21]
    } else {
        seq![c21, c22]
    }
}

/// How far the scanner advances from position `p`: one byte when the pair
/// decode starts with the one-byte character, two bytes otherwise.
pub open spec fn utf8_step_len(s: Seq<u8>, big_endian: bool, p: int) -> int {
    let (a, b) = utf8_ordered_pair(s, big_endian, p);
    if utf8_single_char(s[p]) == utf8_pair_first(a, b) {
        1
    } else {
        2
    }
}

/// The UTF-8 scan from position `p` to the window end. The scan stops two
/// bytes short of the end so its two-byte lookahead stays in bounds; when
/// the final advance steps over that boundary and leaves exactly one
/// unconsumed trailing byte, that byte is decoded on its own.
pub open spec fn utf8_scan_from(s: Seq<u8>, big_endian: bool, p: int) -> Seq<char>
    decreases s.len() - p,
{
    if p < s.len() - 2 {
        utf8_step_chars(s, big_endian, p) + utf8_scan_from(
            s,
            big_endian,
            p + utf8_step_len(s, big_endian, p),
        )
    } else if p == s.len() - 1 {
        seq![utf8_single_char(s[p])]
    } else {
        Seq::empty()
    }
}

/// The whole UTF-8 scan of a window; a window shorter than three bytes
/// gives the scanner no position to visit.
pub open spec fn utf8_scan(s: Seq<u8>, big_endian: bool) -> Seq<char> {
    if s.len() >= 3 {
        utf8_scan_from(s, big_endian, 0)
    } else {
        Seq::empty()
    }
}

/// Scans the window as UTF-8 with a one-or-two-byte step, as
/// [`utf8_scan`] states.
pub fn bytes_to_utf8(bytes: &[u8], big_endian: bool) -> (r: String)
    ensures
        r@ == utf8_scan(bytes@, big_endian),
{
    let mut r = String::new();
    if bytes.len() < 3 {
        return r;
    }
    let n = bytes.len() - 2;
    let mut p: usize = 0;
    while p < n
        invariant
            n + 2 == bytes@.len(),
            3 <= bytes@.len(),
            p <= n + 1,
            utf8_scan_from(bytes@, big_endian, 0) =~= r@ + utf8_scan_from(
                bytes@,
                big_endian,
                p as int,
            ),
        decreases n + 1 - p,
    {
        let x = bytes[p];
        let y = bytes[p + 1];
        let (a, b) = if big_endian {
            (y, x)
        } else {
            (x, y)
        };
        let c1 = if x < 0x80 {
            x as char
        } else {
            ' '
        };
        let (c21, c22) = utf8_pair_chars(a, b);
        let ghost pre = r@;
        let ghost pp = p as int;
        if c1 == c21 {
            push_char(&mut r, c1);
            p = p + 1;
        } else if c22 == '\0' {
            push_char(&mut r, c21);
            p = p + 2;
        } else {
            push_char(&mut r, c21);
            push_char(&mut r, c22);
            p = p + 2;
        }
        proof {
            assert(r@ =~= pre + utf8_step_chars(bytes@, big_endian, pp));
            assert(p as int == pp + utf8_step_len(bytes@, big_endian, pp));
            assert(utf8_scan_from(bytes@, big_endian, 0) =~= r@ + utf8_scan_from(
                bytes@,
                big_endian,
                p as int,
            ));
        }
    }
    if p == n + 1 {
        let c = if bytes[p] < 0x80 {
            bytes[p] as char
        } else {
            ' '
        };
        push_char(&mut r, c);
    }
    proof {
        assert(r@ =~= utf8_scan(bytes@, big_endian));
    }
    r
}

/// How many positions the UTF-16 scanner visits: one per byte, stopping
/// two bytes short of the window end.
pub open spec fn utf16_positions(s: Seq<u8>) -> int {
    if s.len() >= 2 {
        s.len() - 2
    } else {
        0
    }
}

/// The 16-bit code unit composed at position `i`; the "little endian" view
/// of this scanner takes the current byte as the most significant one.
pub open spec fn utf16_unit_at(s: Seq<u8>, big_endian: bool, i: int) -> int {
    if big_endian {
        s[i] + 256 * s[i + 1]
    } else {
        256 * s[i] + s[i + 1]
    }
}

/// The character shown at a UTF-16 scan position: a space placeholder for
/// a lone surrogate half.
pub open spec fn utf16_scan_char(s: Seq<u8>, big_endian: bool, i: int) -> char {
    let u = utf16_unit_at(s, big_endian, i);
    if 0xD800 <= u <= 0xDFFF {
        ' '
    } else {
        u as char
    }
}

/// The whole UTF-16 scan: every visited position contributes its character
/// and one separating space.
pub open spec fn utf16_scan(s: Seq<u8>, big_endian: bool) -> Seq<char> {
    Seq::new(
        (2 * utf16_positions(s)) as nat,
        |j: int|
            if j % 2 == 0 {
                utf16_scan_char(s, big_endian, j / 2)
            } else {
                ' '
            },
    )
}

/// Scans the window one byte at a time as 16-bit code units, as
/// [`utf16_scan`] states.
pub fn bytes_to_utf16(bytes: &[u8], big_endian: bool) -> (r: String)
    ensures
        r@ == utf16_scan(bytes@, big_endian),
        r@.len() == 2 * utf16_positions(bytes@),
{
    let mut r = String::new();
    if bytes.len() < 2 {
        proof {
            assert(r@ =~= utf16_scan(bytes@, big_endian));
        }
        return r;
    }
    let n = bytes.len() - 2;
    let mut i: usize = 0;
    while i < n
        invariant
            n + 2 == bytes@.len(),
            i <= n,
            r@.len() == 2 * i,
            forall|j: int|
                0 <= j < 2 * i && j % 2 == 0 ==> r@[j] == utf16_scan_char(
                    bytes@,
                    big_endian,
                    j / 2,
                ),
            forall|j: int| 0 <= j < 2 * i && j % 2 == 1 ==> r@[j] == ' ',
        decreases n - i,
    {
        let unit: u16 = if big_endian {
            (bytes[i] as u16) + 256 * (bytes[i + 1] as u16)
        } else {
            256 * (bytes[i] as u16) + (bytes[i + 1] as u16)
        };
        if unit < 0xD800 || unit >= 0xE000 {
            let c = match char_from_u32(unit as u32) {
                Some(c) => c,
                None => ' ',
            };
            push_char(&mut r, c);
        } else {
            push_char(&mut r, ' ');
        }
        push_char(&mut r, ' ');
        i = i + 1;
    }
    proof {
        assert(r@ =~= utf16_scan(bytes@, big_endian));
    }
    r
}

/// How many positions the UTF-32 scanner visits: one per byte, stopping
/// four bytes short of the window end.
pub open spec fn utf32_positions(s: Seq<u8>) -> int {
    if s.len() >= 4 {
        s.len() - 4
    } else {
        0
    }
}

/// The 32-bit value composed at position `i`; the "little endian" view
/// again takes the current byte as the most significant one.
pub open spec fn utf32_value_at(s: Seq<u8>, big_endian: bool, i: int) -> int {
    if big_endian {
        s[i] + 256 * s[i + 1] + 65536 * s[i + 2] + 16777216 * s[i + 3]
    } else {
        16777216 * s[i] + 65536 * s[i + 1] + 256 * s[i + 2] + s[i + 3]
    }
}

/// The character shown at a UTF-32 scan position: a space placeholder when
/// the value is no Unicode scalar value.
pub open spec fn utf32_scan_char(s: Seq<u8>, big_endian: bool, i: int) -> char {
    let v = utf32_value_at(s, big_endian, i);
    if is_unicode_scalar(v) {
        v as char
    } else {
        ' '
    }
}

/// The whole UTF-32 scan: every visited position contributes its character
/// and three separating spaces, keeping column alignment with the four-byte
/// stride.
pub open spec fn utf32_scan(s: Seq<u8>, big_endian: bool) -> Seq<char> {
    Seq::new(
        (4 * utf32_positions(s)) as nat,
        |j: int|
            if j % 4 == 0 {
                utf32_scan_char(s, big_endian, j / 4)
            } else {
                ' '
            },
    )
}

/// Scans the window one byte at a time as 32-bit values, as
/// [`utf32_scan`] states.
pub fn bytes_to_utf32(bytes: &[u8], big_endian: bool) -> (r: String)
    ensures
        r@ == utf32_scan(bytes@, big_endian),
        r@.len() == 4 * utf32_positions(bytes@),
{
    let mut r = String::new();
    if bytes.len() < 4 {
        proof {
            assert(r@ =~= utf32_scan(bytes@, big_endian));
        }
        return r;
    }
    let n = bytes.len() - 4;
    let mut i: usize = 0;
    while i < n
        invariant
            n + 4 == bytes@.len(),
            i <= n,
            r@.len() == 4 * i,
            forall|j: int|
                0 <= j < 4 * i && j % 4 == 0 ==> r@[j] == utf32_scan_char(
                    bytes@,
                    big_endian,
                    j / 4,
                ),
            forall|j: int| 0 <= j < 4 * i && j % 4 != 0 ==> r@[j] == ' ',
        decreases n - i,
    {
        let v: u32 = if big_endian {
            (bytes[i] as u32) + 256 * (bytes[i + 1] as u32) + 65536 * (bytes[i + 2] as u32)
                + 16777216 * (bytes[i + 3] as u32)
        } else {
            16777216 * (bytes[i] as u32) + 65536 * (bytes[i + 1] as u32) + 256 * (bytes[i
                + 2] as u32) + (bytes[i + 3] as u32)
        };
        match char_from_u32(v) {
            Some(c) => push_char(&mut r, c),
            None => push_char(&mut r, ' '),
        }
        push_char(&mut r, ' ');
        push_char(&mut r, ' ');
        push_char(&mut r, ' ');
        i = i + 1;
    }
    proof {
        assert(r@ =~= utf32_scan(bytes@, big_endian));
    }
    r
}

/// An all-ASCII window scans, in the little-endian UTF-8 view, to exactly
/// its ASCII text short of the two lookahead bytes the scanner never
/// visits: no byte pairing ever triggers, one character per scanned byte.
pub proof fn lemma_ascii_window_utf8_le(s: Seq<u8>)
    requires
        s.len() >= 2,
        forall|i: int| 0 <= i < s.len() ==> s[i] < 0x80,
    ensures
        utf8_scan(s, false) == ascii_text(s).take(s.len() - 2),
{
    if s.len() == 2 {
        assert(utf8_scan(s, false) =~= ascii_text(s).take(0));
    } else {
        lemma_ascii_window_utf8_le_from(s, 0);
        assert(utf8_scan(s, false) =~= ascii_text(s).take(s.len() - 2));
    }
}

proof fn lemma_ascii_window_utf8_le_from(s: Seq<u8>, p: int)
    requires
        s.len() >= 3,
        0 <= p <= s.len() - 2,
        forall|i: int| 0 <= i < s.len() ==> s[i] < 0x80,
    ensures
        utf8_scan_from(s, false, p) =~= ascii_text(s).subrange(p, s.len() - 2),
    decreases s.len() - p,
{
    if p < s.len() - 2 {
        let x = s[p];
        assert(utf8_pair_first(x, s[p + 1]) == x as char);
        assert(utf8_step_len(s, false, p) == 1);
        assert(utf8_step_chars(s, false, p) =~= seq![x as char]);
        lemma_ascii_window_utf8_le_from(s, p + 1);
        assert(ascii_char(x) == x as char) by {
            assert(x & 0x7f == x) by (bit_vector)
                requires
                    x < 0x80,
            ;
        }
        assert(utf8_scan_from(s, false, p) =~= ascii_text(s).subrange(p, s.len() - 2));
    }
}

} // verus!
