use editor::buffer::Buffer;
use editor::codec::{decode_bytes, normalize_line_endings};

fn load(bytes: &[u8]) -> Buffer {
    Buffer::from_bytes(String::new(), &bytes.to_vec(), 80, 24)
}

#[test]
fn valid_utf8_loads_verbatim() {
    let b = load(b"hello\nworld");
    assert_eq!(b.save_text(), "hello\nworld");
    assert_eq!(b.cursor_idx, 0);
    assert!(!b.dirty);
}

#[test]
fn lf_only_bytes_round_trip_exactly() {
    let original = b"alpha\nbeta\ngamma\n".to_vec();
    let b = load(&original);
    assert_eq!(b.save_bytes(), original);
}

#[test]
fn crlf_bytes_round_trip_with_lf_endings() {
    let b = load(b"alpha\r\nbeta\r\n");
    assert_eq!(b.save_bytes(), b"alpha\nbeta\n".to_vec());
}

#[test]
fn a_lone_carriage_return_is_kept() {
    let b = load(b"a\rb\r\nc");
    assert_eq!(b.save_text(), "a\rb\nc");
}

#[test]
fn utf16le_bom_selects_utf16_decoding() {
    // 0xFF 0xFE, then "hi" in UTF-16LE.
    let b = load(&[0xFF, 0xFE, 0x68, 0x00, 0x69, 0x00]);
    assert_eq!(b.save_text(), "hi");
}

#[test]
fn utf16le_decoding_excludes_the_bom() {
    let bytes = vec![0xFF, 0xFE, 0x61, 0x00];
    let s = decode_bytes(&bytes);
    assert_eq!(s, "a");
}

#[test]
fn utf16le_text_beyond_ascii_decodes_exactly() {
    // "é" is U+00E9.
    let b = load(&[0xFF, 0xFE, 0xE9, 0x00]);
    assert_eq!(b.save_text(), "\u{e9}");
}

#[test]
fn invalid_utf8_without_bom_decodes_lossily() {
    let b = load(&[0x61, 0xFF, 0x62]);
    assert_eq!(b.save_text(), "a\u{fffd}b");
}

#[test]
fn empty_bytes_load_an_empty_buffer() {
    let b = load(b"");
    assert_eq!(b.len_chars(), 0);
    assert_eq!(b.len_lines(), 1);
    assert_eq!(b.save_text(), "");
}

#[test]
fn normalization_rewrites_each_crlf_pair() {
    assert_eq!(normalize_line_endings("a\r\nb\r\n"), "a\nb\n");
    assert_eq!(normalize_line_endings("no endings"), "no endings");
    assert_eq!(normalize_line_endings("\r\r\n"), "\r\n");
    assert_eq!(normalize_line_endings(""), "");
}

#[test]
fn save_text_is_verbatim() {
    let b = load(b"tabs\tand\nlines\n");
    assert_eq!(b.save_text(), "tabs\tand\nlines\n");
}
