//! Transcript entries, streaming replies, word wrapping and entry heights.

use ucode_tui::transcript::{
    entry_height, wrap_text, StreamingMessage, ToolCallStatus, TranscriptEntry,
};

#[test]
fn streaming_message_push_token() {
    let mut msg = StreamingMessage::new();
    msg.push_token("Hello");
    msg.push_token(", ");
    msg.push_token("world");
    assert_eq!(msg.content, "Hello, world");
    assert_eq!(msg.token_count, 3);
}

#[test]
fn streaming_message_finalize() {
    let mut msg = StreamingMessage::new();
    assert!(!msg.is_complete);
    msg.finalize();
    assert!(msg.is_complete);
}

#[test]
fn entry_height_single_line() {
    let entry = TranscriptEntry::UserMessage("hi".to_owned());
    let h = entry_height(&entry, 80, 0);
    // Short user message: 1 text line + 1 blank separator = 2
    assert_eq!(
        h, 2,
        "short user message should be 2 lines (text + separator)"
    );

    let entry2 = TranscriptEntry::RouterEvent("event".to_owned());
    assert_eq!(entry_height(&entry2, 80, 0), 2);

    let entry3 = TranscriptEntry::SystemMessage("sys".to_owned());
    assert_eq!(entry_height(&entry3, 80, 0), 2);

    let entry4 = TranscriptEntry::ToolCall {
        name: "read".to_owned(),
        status: ToolCallStatus::Success,
        duration_ms: None,
        summary: None,
        thinking: None,
        output: None,
    };
    assert_eq!(
        entry_height(&entry4, 80, 0),
        2,
        "tool call should be 1 content + 1 blank"
    );
}

#[test]
fn entry_height_wrapping() {
    // A message that definitely wraps at width=20.
    let long = "word ".repeat(20);
    let entry = TranscriptEntry::UserMessage(long.trim().to_owned());
    let h = entry_height(&entry, 20, 0);
    assert!(
        h > 1,
        "long message should wrap to multiple lines, got h={h}"
    );
}

#[test]
fn wrap_text_basic() {
    // "hello world foo" at width=11 → ["hello world", "foo"]
    let result = wrap_text("hello world foo", 11);
    assert_eq!(result, vec!["hello world", "foo"]);
}

#[test]
fn wrap_text_single_word_fits() {
    let result = wrap_text("hello", 10);
    assert_eq!(result, vec!["hello"]);
}

#[test]
fn wrap_text_empty() {
    let result = wrap_text("", 80);
    assert!(result.is_empty());
}

#[test]
fn wrap_text_zero_width() {
    let result = wrap_text("hello world", 0);
    assert!(result.is_empty());
}

#[test]
fn entry_height_tool_call_with_thinking_and_output() {
    let entry = TranscriptEntry::ToolCall {
        name: "search".to_owned(),
        status: ToolCallStatus::Success,
        duration_ms: Some(100),
        summary: None,
        thinking: Some("analyzing...".to_owned()),
        output: Some("found 3 results".to_owned()),
    };
    assert_eq!(
        entry_height(&entry, 80, 0),
        4,
        "1 main + 1 thinking + 1 output + 1 blank"
    );
}
