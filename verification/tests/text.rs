use rust_event_stream::headers::{header_text_is, is_header_value};
use rust_event_stream::text::{decimal_text, is_blank, white_space};

#[test]
fn white_space_is_what_trim_removes() {
    let mut c: u32 = 0;
    while c <= 0x10ffff {
        if let Some(c) = char::from_u32(c) {
            assert_eq!(white_space(c), c.is_whitespace(), "{:?}", c);
        }
        c += 1;
    }
}

#[test]
fn blank_is_empty_after_trim() {
    for text in ["", " ", "\u{85}\u{a0}", " a ", "\u{200b}", "\t\r\n", "ж"] {
        assert_eq!(is_blank(text), text.trim().is_empty(), "{:?}", text);
    }
}

#[test]
fn decimal_has_no_leading_zeros() {
    for n in [0, 7, 10, 64, 128, 262144, 1000000, u64::MAX] {
        assert_eq!(decimal_text(n), n.to_string());
    }
}

#[test]
fn header_text_needs_visible_ascii() {
    assert!(header_text_is(b"a key\t1", "a key\t1"));
    assert!(!header_text_is(b"key", "kez"));
    assert!(!header_text_is(b"key", "key1"));
    assert!(header_text_is(b"", ""));
    // The bytes spell the text in UTF-8, but a header value outside ASCII has no text.
    assert!(!header_text_is("ключ".as_bytes(), "ключ"));
    assert!(!header_text_is(b"\x7f", "\x7f"));
}

#[test]
fn header_values_hold_no_control_characters() {
    for text in ["", "plain", "tab\there", "ключ", "line\n", "\x7f", "\x00"] {
        let accepted = text.parse::<axum::http::HeaderValue>().is_ok();
        assert_eq!(is_header_value(text), accepted, "{:?}", text);
    }
}
