//! The two entry points of the decoder: the scalar view of the window's
//! leading bytes and the text scans of the whole window.

use crate::chars::{ascii_char, ascii_char_of, char_string, utf16_char_str, utf16_char_string,
    utf32_char_str, utf32_char_string, utf8_pair_str, utf8_pair_string};
use crate::decimal::{dec_str, int_str, signed_dec, signed_val, u128_dec};
use crate::numeric::{be_bytes_val, be_val, le_bytes_val, le_val, lemma_be_val_bound,
    lemma_le_val_bound, pow256};
use crate::string_encodings::{ascii_text, bytes_to_ascii, bytes_to_utf16, bytes_to_utf32,
    bytes_to_utf8, utf16_scan, utf32_scan, utf8_scan, TextDataInPosition};
use crate::types::{DataInPosition, DecodeError, FloatBits, FloatText};
use vstd::prelude::*;

verus! {

/// Scans the whole window under each text encoding and both byte orders.
pub fn read_byte_encodings(data: &[u8]) -> (t: TextDataInPosition)
    ensures
        t.text_ascii@ == ascii_text(data@),
        t.text_le_utf8@ == utf8_scan(data@, false),
        t.text_le_utf16@ == utf16_scan(data@, false),
        t.text_le_utf32@ == utf32_scan(data@, false),
        t.text_be_utf8@ == utf8_scan(data@, true),
        t.text_be_utf16@ == utf16_scan(data@, true),
        t.text_be_utf32@ == utf32_scan(data@, true),
{
    let text_ascii = bytes_to_ascii(data);
    let text_le_utf8 = bytes_to_utf8(data, false);
    let text_le_utf16 = bytes_to_utf16(data, false);
    let text_le_utf32 = bytes_to_utf32(data, false);
    let text_be_utf8 = bytes_to_utf8(data, true);
    let text_be_utf16 = bytes_to_utf16(data, true);
    let text_be_utf32 = bytes_to_utf32(data, true);

    TextDataInPosition {
        text_ascii,
        text_le_utf8,
        text_le_utf16,
        text_le_utf32,
        text_be_utf8,
        text_be_utf16,
        text_be_utf32,
    }
}

/// Reads the raw bit patterns of the window's four floating-point
/// interpretations; rendering them is the caller's part.
pub fn read_float_bits(data: &[u8]) -> (r: Result<FloatBits, DecodeError>)
    ensures
        r is Ok <==> data@.len() >= 8,
        data@.len() < 8 ==> r == Err::<FloatBits, DecodeError>(DecodeError::ShortBuffer),
        r is Ok ==> (r->Ok_0).value_le_f32 as int == le_val(data@.take(4)),
        r is Ok ==> (r->Ok_0).value_be_f32 as int == be_val(data@.take(4)),
        r is Ok ==> (r->Ok_0).value_le_f64 as int == le_val(data@.take(8)),
        r is Ok ==> (r->Ok_0).value_be_f64 as int == be_val(data@.take(8)),
{
    if data.len() < 8 {
        return Err(DecodeError::ShortBuffer);
    }
    let le4 = le_bytes_val(data, 4);
    let be4 = be_bytes_val(data, 4);
    let le8 = le_bytes_val(data, 8);
    let be8 = be_bytes_val(data, 8);
    proof {
        lemma_le_val_bound(data@.take(4));
        lemma_be_val_bound(data@.take(4));
        lemma_le_val_bound(data@.take(8));
        lemma_be_val_bound(data@.take(8));
        reveal_with_fuel(pow256, 9);
        assert(le4 as u32 as u128 == le4) by (bit_vector)
            requires
                le4 < 0x100000000,
        ;
        assert(be4 as u32 as u128 == be4) by (bit_vector)
            requires
                be4 < 0x100000000,
        ;
        assert(le8 as u64 as u128 == le8) by (bit_vector)
            requires
                le8 < 0x10000000000000000,
        ;
        assert(be8 as u64 as u128 == be8) by (bit_vector)
            requires
                be8 < 0x10000000000000000,
        ;
    }
    Ok(
        FloatBits {
            value_le_f32: le4 as u32,
            value_le_f64: le8 as u64,
            value_be_f32: be4 as u32,
            value_be_f64: be8 as u64,
        },
    )
}

/// What every field of a decoded [`DataInPosition`] holds for the window
/// `s`, with the floating-point renderings `sci` copied through unchanged.
/// The single-character UTF-16 views compose their code unit with the
/// current byte as the most significant one, and the big-endian
/// single-character UTF-8 view swaps the two leading bytes before
/// decoding; both are preserved observable behaviour.
pub open spec fn scalar_fields_ok(v: DataInPosition, s: Seq<u8>, sci: FloatText) -> bool {
    &&& v.value_le_u8@ == dec_str(s[0] as nat)
    &&& v.value_le_i8@ == int_str(signed_val(s[0] as int, 0x100))
    &&& v.value_le_u16@ == dec_str(le_val(s.take(2)) as nat)
    &&& v.value_le_i16@ == int_str(signed_val(le_val(s.take(2)), 0x10000))
    &&& v.value_le_u32@ == dec_str(le_val(s.take(4)) as nat)
    &&& v.value_le_i32@ == int_str(signed_val(le_val(s.take(4)), 0x100000000))
    &&& v.value_le_u64@ == dec_str(le_val(s.take(8)) as nat)
    &&& v.value_le_i64@ == int_str(signed_val(le_val(s.take(8)), 0x10000000000000000))
    &&& v.value_le_u128@ == dec_str(le_val(s.take(16)) as nat)
    &&& v.value_le_i128@ == int_str(
        signed_val(le_val(s.take(16)), 0x100000000000000000000000000000000int),
    )
    &&& v.value_le_f32@ == sci.value_le_f32@
    &&& v.value_le_f64@ == sci.value_le_f64@
    &&& v.char_le_ascii@ == seq![ascii_char(s[0])]
    &&& v.char_le_utf8@ == utf8_pair_str(s[0], s[1])
    &&& v.char_le_utf16@ == utf16_char_str(256 * s[0] + s[1])
    &&& v.char_le_utf32@ == utf32_char_str(le_val(s.take(4)))
    &&& v.value_be_u8@ == dec_str(s[0] as nat)
    &&& v.value_be_i8@ == int_str(signed_val(s[0] as int, 0x100))
    &&& v.value_be_u16@ == dec_str(be_val(s.take(2)) as nat)
    &&& v.value_be_i16@ == int_str(signed_val(be_val(s.take(2)), 0x10000))
    &&& v.value_be_u32@ == dec_str(be_val(s.take(4)) as nat)
    &&& v.value_be_i32@ == int_str(signed_val(be_val(s.take(4)), 0x100000000))
    &&& v.value_be_u64@ == dec_str(be_val(s.take(8)) as nat)
    &&& v.value_be_i64@ == int_str(signed_val(be_val(s.take(8)), 0x10000000000000000))
    &&& v.value_be_u128@ == dec_str(be_val(s.take(16)) as nat)
    &&& v.value_be_i128@ == int_str(
        signed_val(be_val(s.take(16)), 0x100000000000000000000000000000000int),
    )
    &&& v.value_be_f32@ == sci.value_be_f32@
    &&& v.value_be_f64@ == sci.value_be_f64@
    &&& v.char_be_ascii@ == seq![ascii_char(s[0])]
    &&& v.char_be_utf8@ == utf8_pair_str(s[1], s[0])
    &&& v.char_be_utf16@ == utf16_char_str(256 * s[1] + s[0])
    &&& v.char_be_utf32@ == utf32_char_str(be_val(s.take(4)))
}

/// Decodes the window's leading bytes as every fixed-width numeric and
/// single-character interpretation, under both byte orders. A window
/// shorter than the sixteen bytes the widest field reads is rejected
/// whole, before anything is sliced.
pub fn get_data_in_bytes(data: &[u8], sci: &FloatText) -> (r: Result<DataInPosition, DecodeError>)
    ensures
        r is Ok <==> data@.len() >= 16,
        data@.len() < 16 ==> r == Err::<DataInPosition, DecodeError>(DecodeError::ShortBuffer),
        r is Ok ==> scalar_fields_ok(r->Ok_0, data@, *sci),
{
    if data.len() < 16 {
        return Err(DecodeError::ShortBuffer);
    }
    let le2 = le_bytes_val(data, 2);
    let le4 = le_bytes_val(data, 4);
    let le8 = le_bytes_val(data, 8);
    let le16 = le_bytes_val(data, 16);
    let be2 = be_bytes_val(data, 2);
    let be4 = be_bytes_val(data, 4);
    let be8 = be_bytes_val(data, 8);
    let be16 = be_bytes_val(data, 16);
    proof {
        lemma_le_val_bound(data@.take(2));
        lemma_le_val_bound(data@.take(4));
        lemma_le_val_bound(data@.take(8));
        lemma_le_val_bound(data@.take(16));
        lemma_be_val_bound(data@.take(2));
        lemma_be_val_bound(data@.take(4));
        lemma_be_val_bound(data@.take(8));
        lemma_be_val_bound(data@.take(16));
        reveal_with_fuel(pow256, 17);
        assert(le4 as u32 as u128 == le4) by (bit_vector)
            requires
                le4 < 0x100000000,
        ;
        assert(be4 as u32 as u128 == be4) by (bit_vector)
            requires
                be4 < 0x100000000,
        ;
    }
    let b0 = data[0];
    let b1 = data[1];

    let unit_le: u16 = 256 * (b0 as u16) + (b1 as u16);
    let unit_be: u16 = 256 * (b1 as u16) + (b0 as u16);

    let ascii = char_string(ascii_char_of(b0));
    let ascii_be = char_string(ascii_char_of(b0));

    let v = DataInPosition {
        value_le_u8: u128_dec(b0 as u128),
        value_le_i8: signed_dec(b0 as u128, 0x80),
        value_le_u16: u128_dec(le2),
        value_le_i16: signed_dec(le2, 0x8000),
        value_le_u32: u128_dec(le4),
        value_le_i32: signed_dec(le4, 0x80000000),
        value_le_u64: u128_dec(le8),
        value_le_i64: signed_dec(le8, 0x8000000000000000),
        value_le_u128: u128_dec(le16),
        value_le_i128: signed_dec(le16, 0x80000000000000000000000000000000),
        value_le_f32: sci.value_le_f32.clone(),
        value_le_f64: sci.value_le_f64.clone(),
        char_le_ascii: ascii,
        char_le_utf8: utf8_pair_string(b0, b1),
        char_le_utf16: utf16_char_string(unit_le),
        char_le_utf32: utf32_char_string(le4 as u32),
        value_be_u8: u128_dec(b0 as u128),
        value_be_i8: signed_dec(b0 as u128, 0x80),
        value_be_u16: u128_dec(be2),
        value_be_i16: signed_dec(be2, 0x8000),
        value_be_u32: u128_dec(be4),
        value_be_i32: signed_dec(be4, 0x80000000),
        value_be_u64: u128_dec(be8),
        value_be_i64: signed_dec(be8, 0x8000000000000000),
        value_be_u128: u128_dec(be16),
        value_be_i128: signed_dec(be16, 0x80000000000000000000000000000000),
        value_be_f32: sci.value_be_f32.clone(),
        value_be_f64: sci.value_be_f64.clone(),
        char_be_ascii: ascii_be,
        char_be_utf8: utf8_pair_string(b1, b0),
        char_be_utf16: utf16_char_string(unit_be),
        char_be_utf32: utf32_char_string(be4 as u32),
    };
    Ok(v)
}

} // verus!
