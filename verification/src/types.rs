//! The record types the decoders fill and the decode error.

use vstd::prelude::*;

verus! {

/// Why a decode could not be carried out at all.
#[derive(Clone, Copy, Debug, PartialEq, Eq)]
pub enum DecodeError {
    /// The window is shorter than the widest field the decode must read.
    ShortBuffer,
}

/// Every fixed-width numeric and single-character interpretation of the
/// window's leading bytes, each rendered as text, under both byte orders.
/// Every field is always populated; a failed character decode leaves its
/// field empty rather than absent.
pub struct DataInPosition {
    pub value_le_u8: String,
    pub value_le_i8: String,
    pub value_le_u16: String,
    pub value_le_i16: String,
    pub value_le_u32: String,
    pub value_le_i32: String,
    pub value_le_u64: String,
    pub value_le_i64: String,
    pub value_le_u128: String,
    pub value_le_i128: String,
    pub value_le_f32: String,
    pub value_le_f64: String,
    pub char_le_ascii: String,
    pub char_le_utf8: String,
    pub char_le_utf16: String,
    pub char_le_utf32: String,
    pub value_be_u8: String,
    pub value_be_i8: String,
    pub value_be_u16: String,
    pub value_be_i16: String,
    pub value_be_u32: String,
    pub value_be_i32: String,
    pub value_be_u64: String,
    pub value_be_i64: String,
    pub value_be_u128: String,
    pub value_be_i128: String,
    pub value_be_f32: String,
    pub value_be_f64: String,
    pub char_be_ascii: String,
    pub char_be_utf8: String,
    pub char_be_utf16: String,
    pub char_be_utf32: String,
}

/// The scientific-notation renderings of the window's floating-point
/// interpretations, supplied by the caller: this decoder is integer-only,
/// so it pins the float fields to exactly what was handed in. The matching
/// bit patterns come from [`crate::hex_data::read_float_bits`].
pub struct FloatText {
    pub value_le_f32: String,
    pub value_le_f64: String,
    pub value_be_f32: String,
    pub value_be_f64: String,
}

/// The raw bit patterns of the window's floating-point interpretations,
/// for the caller to render.
pub struct FloatBits {
    pub value_le_f32: u32,
    pub value_le_f64: u64,
    pub value_be_f32: u32,
    pub value_be_f64: u64,
}

/// One open file of the surrounding registry, as shown to a UI.
pub struct AppFileStateResult {
    pub file_name: String,
    pub file_name_no_path: String,
    pub file_index: usize,
    pub file_size: u64,
}

} // verus!
