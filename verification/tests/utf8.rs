//! The verified UTF-8 validator against the classic boundary vectors, held
//! side by side with the standard library's own decoder.

use microstring::validate::utf8_valid;

fn agrees_with_std(bytes: &[u8]) -> bool {
    let ours = utf8_valid(bytes);
    let stds = core::str::from_utf8(bytes).is_ok();
    assert_eq!(ours, stds, "validator disagrees with std on {bytes:02X?}");
    ours
}

#[test]
fn accepts_valid_sequences() {
    assert!(agrees_with_std(b""));
    assert!(agrees_with_std(b"abc"));
    assert!(agrees_with_std("\u{7F}".as_bytes()));
    assert!(agrees_with_std("\u{80}".as_bytes()));
    assert!(agrees_with_std("\u{7FF}".as_bytes()));
    assert!(agrees_with_std("\u{800}".as_bytes()));
    assert!(agrees_with_std("\u{D7FF}".as_bytes()));
    assert!(agrees_with_std("\u{E000}".as_bytes()));
    assert!(agrees_with_std("\u{FFFF}".as_bytes()));
    assert!(agrees_with_std("\u{10000}".as_bytes()));
    assert!(agrees_with_std("\u{10FFFF}".as_bytes()));
    assert!(agrees_with_std("a\u{E9}\u{20AC}\u{1D11E}".as_bytes()));
}

#[test]
fn rejects_stray_and_truncated() {
    assert!(!agrees_with_std(&[0x80])); // lone continuation
    assert!(!agrees_with_std(&[0xBF]));
    assert!(!agrees_with_std(&[0xC3])); // truncated two-byte
    assert!(!agrees_with_std(&[0xE2, 0x82])); // truncated three-byte
    assert!(!agrees_with_std(&[0xF0, 0x9D, 0x84])); // truncated four-byte
    assert!(!agrees_with_std(&[0xC3, 0x28])); // bad continuation
    assert!(!agrees_with_std(&[0xE2, 0x28, 0xA1]));
    assert!(!agrees_with_std(&[0xF0, 0x28, 0x8C, 0x28]));
    assert!(!agrees_with_std(&[0x61, 0x80])); // continuation after ASCII
}

#[test]
fn rejects_overlong_encodings() {
    assert!(!agrees_with_std(&[0xC0, 0x80])); // overlong NUL
    assert!(!agrees_with_std(&[0xC1, 0xBF]));
    assert!(!agrees_with_std(&[0xE0, 0x80, 0x80]));
    assert!(!agrees_with_std(&[0xE0, 0x9F, 0xBF]));
    assert!(!agrees_with_std(&[0xF0, 0x80, 0x80, 0x80]));
    assert!(!agrees_with_std(&[0xF0, 0x8F, 0xBF, 0xBF]));
}

#[test]
fn rejects_surrogates_and_beyond_unicode() {
    assert!(!agrees_with_std(&[0xED, 0xA0, 0x80])); // U+D800
    assert!(!agrees_with_std(&[0xED, 0xBF, 0xBF])); // U+DFFF
    assert!(agrees_with_std(&[0xED, 0x9F, 0xBF])); // U+D7FF is fine
    assert!(!agrees_with_std(&[0xF4, 0x90, 0x80, 0x80])); // U+110000
    assert!(!agrees_with_std(&[0xF5, 0x80, 0x80, 0x80]));
    assert!(!agrees_with_std(&[0xF8, 0x88, 0x80, 0x80]));
    assert!(!agrees_with_std(&[0xFF]));
}
