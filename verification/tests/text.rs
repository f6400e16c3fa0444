use tokenizer_bridge::text::decode_text;

#[test]
fn ascii_is_text() {
    assert_eq!(decode_text(b"hello world"), Some("hello world"));
}

#[test]
fn empty_input_is_text() {
    assert_eq!(decode_text(b""), Some(""));
}

#[test]
fn multi_byte_characters_are_decoded() {
    // two, three and four bytes long
    assert_eq!(decode_text(&[0xC3, 0xA9]), Some("\u{e9}"));
    assert_eq!(decode_text(&[0xE2, 0x82, 0xAC]), Some("\u{20ac}"));
    assert_eq!(decode_text(&[0xF0, 0x9F, 0x98, 0x80]), Some("\u{1f600}"));
    assert_eq!(
        decode_text(&[b'a', 0xC3, 0xA9, b'b', 0xE2, 0x82, 0xAC]),
        Some("a\u{e9}b\u{20ac}")
    );
}

#[test]
fn decoded_text_borrows_the_same_bytes() {
    let bytes = [b'n', b'a', 0xC3, 0xAF, b'v', b'e'];
    let text = decode_text(&bytes).unwrap();
    assert_eq!(text.as_bytes(), &bytes);
    assert_eq!(text.as_ptr(), bytes.as_ptr());
    assert_eq!(text.chars().count(), 5);
}

#[test]
fn stray_bytes_are_rejected() {
    assert_eq!(decode_text(&[0xFF]), None);
    assert_eq!(decode_text(&[b'a', 0x80, b'b']), None);
    assert_eq!(decode_text(&[0xC3]), None);
    assert_eq!(decode_text(&[0xE2, 0x82]), None);
    assert_eq!(decode_text(&[0xF0, 0x9F, 0x98]), None);
}

#[test]
fn overlong_and_surrogate_forms_are_rejected() {
    assert_eq!(decode_text(&[0xC0, 0x80]), None);
    assert_eq!(decode_text(&[0xE0, 0x80, 0x80]), None);
    assert_eq!(decode_text(&[0xED, 0xA0, 0x80]), None);
    assert_eq!(decode_text(&[0xF4, 0x90, 0x80, 0x80]), None);
}

#[test]
fn invalid_input_is_never_patched_up() {
    // a lossy decoder would give "a\u{fffd}b" here
    assert_eq!(decode_text(&[b'a', 0xFF, b'b']), None);
}
