use hexview_core::hex_data::read_byte_encodings;
use hexview_core::string_encodings::{
    bytes_to_ascii, bytes_to_utf16, bytes_to_utf32, bytes_to_utf8,
};

/// A small deterministic byte generator for arbitrary-content windows.
fn pseudo_random_bytes(len: usize, seed: u8) -> Vec<u8> {
    let mut v = Vec::with_capacity(len);
    let mut x = seed;
    for _ in 0..len {
        x = x.wrapping_mul(197).wrapping_add(91);
        v.push(x);
    }
    v
}

#[test]
fn ascii_maps_every_byte() {
    let window = b"Hello\xFF\x80 world";
    let text = bytes_to_ascii(window);
    assert_eq!(text.chars().count(), window.len());
    for (i, c) in text.chars().enumerate() {
        assert_eq!(c as u32, (window[i] & 0x7F) as u32);
    }
    assert_eq!(text, "Hello\u{7f}\0 world");
}

#[test]
fn ascii_of_empty_window_is_empty() {
    assert_eq!(bytes_to_ascii(&[]), "");
}

#[test]
fn utf8_ascii_window_reproduces_ascii_text() {
    let window = b"Hello world!";
    let ascii = bytes_to_ascii(window);
    let utf8 = bytes_to_utf8(window, false);
    // the scanner stops two bytes short of the end
    assert_eq!(utf8, ascii[..ascii.len() - 2]);
    assert_eq!(utf8, "Hello worl");
}

#[test]
fn utf8_big_endian_swaps_ascii_pairs() {
    let window = b"ABCDE";
    assert_eq!(bytes_to_utf8(window, false), "ABC");
    // pairs are swapped, the skipped-over trailing byte is decoded alone
    assert_eq!(bytes_to_utf8(window, true), "BADCE");
}

#[test]
fn utf8_two_byte_sequence_is_decoded() {
    // an accented letter, then ASCII
    let window = [0xC3u8, 0xA9, 0x41, 0x42, 0x43];
    let le = bytes_to_utf8(&window, false);
    // the two-byte character consumes both bytes, then one ASCII byte is
    // scanned before the two-byte lookahead boundary stops the scan
    assert_eq!(le, "\u{e9}A");
}

#[test]
fn utf8_short_windows_are_empty() {
    assert_eq!(bytes_to_utf8(&[], false), "");
    assert_eq!(bytes_to_utf8(&[0x41], false), "");
    assert_eq!(bytes_to_utf8(&[0x41, 0x42], true), "");
}

#[test]
fn utf16_scan_composes_units_per_order() {
    let window = [0x41u8, 0x00, 0x42, 0x00];
    // the "little endian" view takes the current byte as most significant:
    // units 0x4100 and 0x0042
    let le = bytes_to_utf16(&window, false);
    let c = char::from_u32(0x4100).unwrap();
    assert_eq!(le, format!("{} B ", c));
    // the big-endian view: units 0x0041 and 0x4200
    let be = bytes_to_utf16(&window, true);
    let d = char::from_u32(0x4200).unwrap();
    assert_eq!(be, format!("A {} ", d));
}

#[test]
fn utf16_surrogate_gives_space_placeholder() {
    let window = [0xD8u8, 0x00, 0x00, 0x00];
    // units 0xD800 (surrogate) and 0x0000
    let le = bytes_to_utf16(&window, false);
    assert_eq!(le, "  \0 ");
}

#[test]
fn utf16_scan_never_panics_and_has_proportional_length() {
    for len in [0usize, 1, 2, 3, 4, 5, 16, 17, 64] {
        for seed in [1u8, 7, 101] {
            let window = pseudo_random_bytes(len, seed);
            let le = bytes_to_utf16(&window, false);
            let be = bytes_to_utf16(&window, true);
            let positions = if len >= 2 { len - 2 } else { 0 };
            assert_eq!(le.chars().count(), 2 * positions);
            assert_eq!(be.chars().count(), 2 * positions);
        }
    }
}

#[test]
fn utf32_scan_composes_values_per_order() {
    let window = [0x41u8, 0x00, 0x00, 0x00, 0x00];
    // one position; "little endian" composes 0x41000000, no scalar value
    assert_eq!(bytes_to_utf32(&window, false), "    ");
    // big-endian composes 0x00000041
    assert_eq!(bytes_to_utf32(&window, true), "A   ");
}

#[test]
fn utf32_scan_never_panics_and_has_proportional_length() {
    for len in [0usize, 1, 2, 3, 4, 5, 6, 16, 17, 64] {
        for seed in [3u8, 19, 251] {
            let window = pseudo_random_bytes(len, seed);
            let le = bytes_to_utf32(&window, false);
            let be = bytes_to_utf32(&window, true);
            let positions = if len >= 4 { len - 4 } else { 0 };
            assert_eq!(le.chars().count(), 4 * positions);
            assert_eq!(be.chars().count(), 4 * positions);
        }
    }
}

#[test]
fn read_byte_encodings_matches_the_single_scans() {
    let window = pseudo_random_bytes(48, 5);
    let t = read_byte_encodings(&window);
    assert_eq!(t.text_ascii, bytes_to_ascii(&window));
    assert_eq!(t.text_le_utf8, bytes_to_utf8(&window, false));
    assert_eq!(t.text_be_utf8, bytes_to_utf8(&window, true));
    assert_eq!(t.text_le_utf16, bytes_to_utf16(&window, false));
    assert_eq!(t.text_be_utf16, bytes_to_utf16(&window, true));
    assert_eq!(t.text_le_utf32, bytes_to_utf32(&window, false));
    assert_eq!(t.text_be_utf32, bytes_to_utf32(&window, true));
}

#[test]
fn ascii_space_quirk_before_high_byte() {
    // an ASCII space followed by a high byte: the one-byte and the failed
    // two-byte decode both show a space, so only one space is emitted and
    // the scan advances a single byte
    let window = [0x20u8, 0x80, 0x41, 0x42, 0x43];
    let le = bytes_to_utf8(&window, false);
    assert_eq!(le, "  A");
}
