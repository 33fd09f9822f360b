//! Clipboard framing, tool choice and fallback decisions.

use ucode_tui::clipboard::{multiplexer_name, write_osc52, ClipboardMethod};

#[test]
fn osc52_escape_format() {
    let mut buf: Vec<u8> = Vec::new();
    write_osc52("hi", &mut buf).unwrap();
    let s = String::from_utf8(buf).unwrap();
    assert!(s.starts_with("\x1b]52;c;"), "missing OSC 52 introducer");
    assert!(s.ends_with('\x07'), "missing BEL terminator");
}

#[test]
fn osc52_base64_encoding() {
    // "hello" in standard Base64 is "aGVsbG8="
    let mut buf: Vec<u8> = Vec::new();
    write_osc52("hello", &mut buf).unwrap();
    let s = String::from_utf8(buf).unwrap();
    assert_eq!(s, "\x1b]52;c;aGVsbG8=\x07");
}

#[test]
fn multiplexer_detection_none() {
    // multiplexer_name must not panic regardless of env state.
    let _ = multiplexer_name(false, false, false);
    assert_eq!(multiplexer_name(false, false, false), None);
}

#[test]
fn clipboard_method_default() {
    assert_eq!(ClipboardMethod::default(), ClipboardMethod::Osc52);
}
