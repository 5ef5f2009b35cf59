use hexview_core::hex_data::{get_data_in_bytes, read_float_bits};
use hexview_core::types::{DecodeError, FloatText};

fn sci_text(window: &[u8]) -> FloatText {
    let bits = read_float_bits(window).unwrap();
    FloatText {
        value_le_f32: format!("{:e}", f32::from_bits(bits.value_le_f32)),
        value_le_f64: format!("{:e}", f64::from_bits(bits.value_le_f64)),
        value_be_f32: format!("{:e}", f32::from_bits(bits.value_be_f32)),
        value_be_f64: format!("{:e}", f64::from_bits(bits.value_be_f64)),
    }
}

fn empty_sci() -> FloatText {
    FloatText {
        value_le_f32: String::new(),
        value_le_f64: String::new(),
        value_be_f32: String::new(),
        value_be_f64: String::new(),
    }
}

#[test]
fn all_zero_window_decodes_fully() {
    let window = [0u8; 16];
    let v = get_data_in_bytes(&window, &sci_text(&window)).unwrap();
    assert_eq!(v.value_le_u8, "0");
    assert_eq!(v.value_le_i8, "0");
    assert_eq!(v.value_le_u16, "0");
    assert_eq!(v.value_le_i16, "0");
    assert_eq!(v.value_le_u32, "0");
    assert_eq!(v.value_le_i32, "0");
    assert_eq!(v.value_le_u64, "0");
    assert_eq!(v.value_le_i64, "0");
    assert_eq!(v.value_le_u128, "0");
    assert_eq!(v.value_le_i128, "0");
    assert_eq!(v.value_be_u128, "0");
    assert_eq!(v.value_le_f32, "0e0");
    assert_eq!(v.value_be_f64, "0e0");
    assert_eq!(v.char_le_ascii, "\0");
    assert_eq!(v.char_be_ascii, "\0");
    // two NUL bytes are two one-byte UTF-8 characters
    assert_eq!(v.char_le_utf8, "\0\0");
    assert_eq!(v.char_le_utf16, "\0");
    assert_eq!(v.char_le_utf32, "\0");
}

#[test]
fn all_ff_window_decodes_fully() {
    let window = [0xFFu8; 16];
    let v = get_data_in_bytes(&window, &sci_text(&window)).unwrap();
    assert_eq!(v.value_le_u8, "255");
    assert_eq!(v.value_le_i8, "-1");
    assert_eq!(v.value_le_u16, "65535");
    assert_eq!(v.value_le_i16, "-1");
    assert_eq!(v.value_be_u32, "4294967295");
    assert_eq!(v.value_be_i32, "-1");
    assert_eq!(v.value_le_u64, "18446744073709551615");
    assert_eq!(v.value_le_i64, "-1");
    assert_eq!(v.value_le_u128, "340282366920938463463374607431768211455");
    assert_eq!(v.value_le_i128, "-1");
    // 0xFF masked to 7 bits is DEL
    assert_eq!(v.char_le_ascii, "\u{7f}");
    // 0xFF 0xFF is no valid UTF-8 sequence
    assert_eq!(v.char_le_utf8, "");
    assert_eq!(v.char_be_utf8, "");
    // 0xFFFF is a valid (noncharacter) code point, not a surrogate
    assert_eq!(v.char_le_utf16, "\u{ffff}");
    // 0xFFFFFFFF is no Unicode scalar value
    assert_eq!(v.char_le_utf32, "");
    assert_eq!(v.char_be_utf32, "");
}

#[test]
fn window_with_a_leading_letter() {
    let mut window = [0u8; 16];
    window[0] = 0x41;
    let v = get_data_in_bytes(&window, &sci_text(&window)).unwrap();
    assert_eq!(v.value_le_u16, "65");
    assert_eq!(v.value_be_u16, "16640");
    assert_eq!(v.char_le_ascii, "A");
}

#[test]
fn float_one_renders_in_scientific_notation() {
    let window = [
        0x00u8, 0x00, 0x80, 0x3F, 0x00, 0x00, 0x80, 0x3F, 0x00, 0x00, 0x80, 0x3F, 0x00, 0x00,
        0x80, 0x3F,
    ];
    let bits = read_float_bits(&window).unwrap();
    assert_eq!(bits.value_le_f32, 0x3F800000);
    assert_eq!(f32::from_bits(bits.value_le_f32), 1.0f32);
    let v = get_data_in_bytes(&window, &sci_text(&window)).unwrap();
    assert_eq!(v.value_le_f32, "1e0");
}

#[test]
fn float_text_is_copied_through() {
    let window = [0u8; 16];
    let sci = FloatText {
        value_le_f32: "1.5e0".to_string(),
        value_le_f64: "2.5e0".to_string(),
        value_be_f32: "3.5e0".to_string(),
        value_be_f64: "4.5e0".to_string(),
    };
    let v = get_data_in_bytes(&window, &sci).unwrap();
    assert_eq!(v.value_le_f32, "1.5e0");
    assert_eq!(v.value_le_f64, "2.5e0");
    assert_eq!(v.value_be_f32, "3.5e0");
    assert_eq!(v.value_be_f64, "4.5e0");
}

#[test]
fn signed_boundaries() {
    let mut window = [0u8; 16];
    window[1] = 0x80;
    let v = get_data_in_bytes(&window, &empty_sci()).unwrap();
    // 0x8000 read little-endian is the most negative i16
    assert_eq!(v.value_le_u16, "32768");
    assert_eq!(v.value_le_i16, "-32768");
    // big-endian reads 0x0080
    assert_eq!(v.value_be_u16, "128");
    assert_eq!(v.value_be_i16, "128");
}

#[test]
fn two_byte_utf8_character() {
    let mut window = [0u8; 16];
    window[0] = 0xC3;
    window[1] = 0xA9;
    let v = get_data_in_bytes(&window, &empty_sci()).unwrap();
    assert_eq!(v.char_le_utf8, "\u{e9}");
    // the big-endian view swaps the bytes first, which is no valid sequence
    assert_eq!(v.char_be_utf8, "");
    // the 16-bit unit takes the current byte as most significant
    assert_eq!(v.char_le_utf16, char::from_u32(0xC3A9).unwrap().to_string());
    assert_eq!(v.char_be_utf16, char::from_u32(0xA9C3).unwrap().to_string());
}

#[test]
fn surrogate_utf16_char_is_empty() {
    let mut window = [0u8; 16];
    window[0] = 0xD8;
    window[1] = 0x00;
    let v = get_data_in_bytes(&window, &empty_sci()).unwrap();
    // 0xD800 is a lone surrogate half
    assert_eq!(v.char_le_utf16, "");
    // the other order gives 0x00D8
    assert_eq!(v.char_be_utf16, "\u{d8}");
}

#[test]
fn short_windows_report_short_buffer() {
    for len in 0..16usize {
        let window = vec![0xA5u8; len];
        let r = get_data_in_bytes(&window, &empty_sci());
        assert!(matches!(r, Err(DecodeError::ShortBuffer)));
    }
    let window = vec![0xA5u8; 16];
    assert!(get_data_in_bytes(&window, &empty_sci()).is_ok());
}

#[test]
fn short_windows_report_short_buffer_for_float_bits() {
    for len in 0..8usize {
        let window = vec![1u8; len];
        assert!(matches!(read_float_bits(&window), Err(DecodeError::ShortBuffer)));
    }
    assert!(read_float_bits(&[0u8; 8]).is_ok());
}
