//! Decoding core of a hex-viewer: every plausible typed and textual
//! interpretation of a window of raw bytes, under both byte orders.
//!
//! The two entry points are [`hex_data::get_data_in_bytes`], which decodes
//! the leading bytes of a window as fixed-width numbers and single
//! characters, and [`hex_data::read_byte_encodings`], which scans the whole
//! window under each text encoding.

pub mod chars;
pub mod decimal;
pub mod hex_data;
pub mod numeric;
pub mod string_encodings;
pub mod types;
