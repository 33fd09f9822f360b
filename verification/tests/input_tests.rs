//! Prompt editor and autocomplete behaviour.

use ucode_tui::input::{AutocompleteEntry, AutocompleteState, InputBoxState};

// Readline method tests (Part 1)
// ------------------------------------------------------------------

#[test]
fn input_box_kill_ring_default_empty() {
    let state = InputBoxState::new();
    assert!(state.kill_ring.is_empty());
}

#[test]
fn input_box_move_word_left() {
    let mut state = InputBoxState::new();
    for c in "hello world".chars() {
        state.insert_char(c);
    }
    // cursor is at end (pos 11); move_word_left should land at start of "world" (pos 6)
    state.move_word_left();
    assert_eq!(state.cursor_pos, 6);
}

#[test]
fn input_box_move_word_right() {
    let mut state = InputBoxState::new();
    for c in "hello world".chars() {
        state.insert_char(c);
    }
    // move to start
    state.move_home();
    // move_word_right should land after "hello" (pos 5)
    state.move_word_right();
    assert_eq!(state.cursor_pos, 5);
}

#[test]
fn input_box_kill_to_end() {
    let mut state = InputBoxState::new();
    for c in "hello world".chars() {
        state.insert_char(c);
    }
    // move to position 5 (after "hello")
    state.move_home();
    for _ in 0..5 {
        state.move_right();
    }
    state.kill_to_end();
    assert_eq!(state.content, "hello");
    assert_eq!(state.kill_ring, " world");
}

#[test]
fn input_box_kill_to_start() {
    let mut state = InputBoxState::new();
    for c in "hello world".chars() {
        state.insert_char(c);
    }
    // move to position 5 (after "hello")
    state.move_home();
    for _ in 0..5 {
        state.move_right();
    }
    state.kill_to_start();
    assert_eq!(state.content, " world");
    assert_eq!(state.kill_ring, "hello");
}

#[test]
fn input_box_delete_word_back() {
    let mut state = InputBoxState::new();
    for c in "hello world".chars() {
        state.insert_char(c);
    }
    // cursor at end; delete_word_back should remove "world"
    state.delete_word_back();
    assert_eq!(state.content, "hello ");
    assert_eq!(state.kill_ring, "world");
}

#[test]
fn input_box_delete_word_forward() {
    let mut state = InputBoxState::new();
    for c in "hello world".chars() {
        state.insert_char(c);
    }
    // move to start; delete_word_forward should remove "hello"
    state.move_home();
    state.delete_word_forward();
    assert_eq!(state.content, " world");
    assert_eq!(state.kill_ring, "hello");
}

#[test]
fn input_box_transpose_chars() {
    let mut state = InputBoxState::new();
    state.insert_char('a');
    state.insert_char('b');
    // cursor at end; transpose swaps last two chars
    state.transpose_chars();
    assert_eq!(state.content, "ba");
}

#[test]
fn input_box_yank() {
    let mut state = InputBoxState::new();
    for c in "hello world".chars() {
        state.insert_char(c);
    }
    // kill to end from position 5 → kill_ring = " world", content = "hello"
    state.move_home();
    for _ in 0..5 {
        state.move_right();
    }
    state.kill_to_end();
    assert_eq!(state.content, "hello");

    // move to start and yank
    state.move_home();
    state.yank();
    assert_eq!(state.content, " worldhello");
}

// ------------------------------------------------------------------
// InputBoxState tests
// ------------------------------------------------------------------

#[test]
fn input_box_insert_char() {
    let mut state = InputBoxState::new();
    state.insert_char('h');
    state.insert_char('i');
    assert_eq!(state.content, "hi");
    assert_eq!(state.cursor_pos, 2);
}

#[test]
fn input_box_delete_char() {
    let mut state = InputBoxState::new();
    for c in "hello".chars() {
        state.insert_char(c);
    }
    state.delete_char();
    assert_eq!(state.content, "hell");
    assert_eq!(state.cursor_pos, 4);
}

#[test]
fn input_box_move_cursor() {
    let mut state = InputBoxState::new();
    for c in "abc".chars() {
        state.insert_char(c);
    }
    // cursor is after 'c' (pos 3); move left once → between 'b' and 'c'
    state.move_left();
    assert_eq!(state.cursor_pos, 2);
    state.insert_char('x');
    assert_eq!(state.content, "abxc");
}

#[test]
fn input_box_clear() {
    let mut state = InputBoxState::new();
    for c in "hello world".chars() {
        state.insert_char(c);
    }
    state.clear();
    assert!(state.is_empty());
    assert_eq!(state.cursor_pos, 0);
    assert_eq!(state.cursor_col, 0);
}

#[test]
fn input_box_take_content() {
    let mut state = InputBoxState::new();
    for c in "hello".chars() {
        state.insert_char(c);
    }
    let taken = state.take_content();
    assert_eq!(taken, "hello");
    assert!(state.is_empty());
    assert_eq!(state.cursor_pos, 0);
}

#[test]
fn input_box_newline() {
    let mut state = InputBoxState::new();
    state.insert_char('a');
    state.insert_newline();
    state.insert_char('b');
    assert_eq!(state.line_count(), 2);
    assert_eq!(state.content, "a\nb");
}

#[test]
fn input_box_slash_prefix() {
    let mut state = InputBoxState::new();
    state.insert_char('/');
    assert!(state.has_slash_prefix());
    assert!(!state.has_mention_prefix());
}

#[test]
fn input_box_mention_prefix() {
    let mut state = InputBoxState::new();
    state.insert_char('@');
    assert!(state.has_mention_prefix());
    assert!(!state.has_slash_prefix());
}

#[test]
fn input_box_transpose_words() {
    let mut state = InputBoxState::new();
    for c in "hello world".chars() {
        state.insert_char(c);
    }
    // cursor at end; transpose_words swaps "hello" and "world"
    state.transpose_words();
    assert_eq!(state.content, "world hello");
    // cursor should be at end of "hello" in its new position
    assert_eq!(state.cursor_pos, state.content.len());
}

#[test]
fn input_box_upcase_word() {
    let mut state = InputBoxState::new();
    for c in "hello world".chars() {
        state.insert_char(c);
    }
    state.move_home();
    state.upcase_word();
    assert_eq!(state.content, "HELLO world");
    // cursor should be after "HELLO" (pos 5)
    assert_eq!(state.cursor_pos, 5);
}

#[test]
fn input_box_downcase_word() {
    let mut state = InputBoxState::new();
    for c in "HELLO world".chars() {
        state.insert_char(c);
    }
    state.move_home();
    state.downcase_word();
    assert_eq!(state.content, "hello world");
    // cursor should be after "hello" (pos 5)
    assert_eq!(state.cursor_pos, 5);
}

#[test]
fn input_box_capitalize_word() {
    let mut state = InputBoxState::new();
    for c in "hello world".chars() {
        state.insert_char(c);
    }
    state.move_home();
    state.capitalize_word();
    assert_eq!(state.content, "Hello world");
    // cursor should be after "Hello" (pos 5)
    assert_eq!(state.cursor_pos, 5);
}

// ------------------------------------------------------------------
// move_up / move_down tests
// ------------------------------------------------------------------

#[test]
fn input_box_move_up() {
    let mut state = InputBoxState::new();
    for c in "abc\ndef\nghi".chars() {
        if c == '\n' {
            state.insert_newline();
        } else {
            state.insert_char(c);
        }
    }
    // cursor is at end of line 2 (after 'i'), col 3
    assert_eq!(state.cursor_pos, 11);

    state.move_up();
    // should be on line 1 at col 3 (after 'f')
    assert_eq!(state.cursor_pos, 7); // "abc\ndef" → 'f' is at byte 6, after it = 7
    assert_eq!(state.cursor_col, 3);

    state.move_up();
    // should be on line 0 at col 3 (after 'c')
    assert_eq!(state.cursor_pos, 3);
    assert_eq!(state.cursor_col, 3);

    // already on first line — no-op
    state.move_up();
    assert_eq!(state.cursor_pos, 3);
}

#[test]
fn input_box_move_down() {
    let mut state = InputBoxState::new();
    for c in "abc\ndef\nghi".chars() {
        if c == '\n' {
            state.insert_newline();
        } else {
            state.insert_char(c);
        }
    }
    // move cursor to start (line 0, col 0)
    state.move_home();
    state.move_home(); // second call is a no-op but harmless
    // manually reset to absolute start
    state.cursor_pos = 0;
    state.cursor_col = 0;

    state.move_down();
    // should be on line 1 at col 0 (before 'd')
    assert_eq!(state.cursor_pos, 4); // "abc\n" = 4 bytes
    assert_eq!(state.cursor_col, 0);

    state.move_down();
    // should be on line 2 at col 0 (before 'g')
    assert_eq!(state.cursor_pos, 8); // "abc\ndef\n" = 8 bytes
    assert_eq!(state.cursor_col, 0);
}

#[test]
fn input_box_move_up_clamps_column() {
    let mut state = InputBoxState::new();
    for c in "abcdef\nhi".chars() {
        if c == '\n' {
            state.insert_newline();
        } else {
            state.insert_char(c);
        }
    }
    // cursor is at end of line 1 (after 'i'), col 2
    // move_up should clamp to end of line 0 (col 6, after 'f')
    // but we want to test clamping: start at end of line 0 (col 6), move_down clamps to end of line 1 (col 2)
    state.cursor_pos = 6; // end of "abcdef"
    state.cursor_col = 6;

    state.move_down();
    // line 1 is "hi" (len 2), col 6 clamped to col 2
    assert_eq!(state.cursor_pos, 9); // "abcdef\nhi" = 9 bytes, end of "hi"
    assert_eq!(state.cursor_col, 2);
}

// ------------------------------------------------------------------
// AutocompleteState tests
// ------------------------------------------------------------------

fn sample_entries() -> Vec<AutocompleteEntry> {
    vec![
        AutocompleteEntry::new("/session fork", "Fork current session", "[builtin]"),
        AutocompleteEntry::new("/session list", "List sessions", "[builtin]"),
        AutocompleteEntry::new("/help", "Show help", "[builtin]"),
    ]
}

#[test]
fn autocomplete_navigation() {
    let mut state = AutocompleteState::new();
    state.show(sample_entries());
    assert_eq!(state.selected, 0);

    state.next();
    assert_eq!(state.selected, 1);

    state.next();
    assert_eq!(state.selected, 2);

    // Wrap around.
    state.next();
    assert_eq!(state.selected, 0);

    // Prev wraps the other way.
    state.prev();
    assert_eq!(state.selected, 2);
}

#[test]
fn autocomplete_selected_entry() {
    let mut state = AutocompleteState::new();
    state.show(sample_entries());
    state.next(); // select index 1

    let entry = state.selected_entry().expect("should have entry");
    assert_eq!(entry.name, "/session list");
}

#[test]
fn autocomplete_hide() {
    let mut state = AutocompleteState::new();
    state.show(sample_entries());
    assert!(state.visible);

    state.hide_dropdown();
    assert!(!state.visible);
    // selected_entry returns None when hidden.
    assert!(state.selected_entry().is_none());
}

// ------------------------------------------------------------------

fn typed(text: &str) -> InputBoxState {
    let mut state = InputBoxState::new();
    for c in text.chars() {
        state.insert_char(c);
    }
    state
}

#[test]
fn transpose_words_before_and_after_cursor() {
    // Cursor right after "bb": "bb" is swapped with the word after it.
    let mut state = typed("aa bb cc");
    for _ in 0..3 {
        state.move_left();
    }
    assert_eq!(state.cursor_pos, 5);
    state.transpose_words();
    assert_eq!(state.content, "aa cc bb");
    assert_eq!(state.cursor_pos, 8);

    // Cursor at the start of "bb": the word before it is "aa".
    let mut state = typed("aa bb cc");
    for _ in 0..5 {
        state.move_left();
    }
    state.transpose_words();
    assert_eq!(state.content, "bb aa cc");
    assert_eq!(state.cursor_pos, 5);

    // Cursor inside the last word: the last two are swapped.
    let mut state = typed("aa bb cc");
    state.move_left();
    state.transpose_words();
    assert_eq!(state.content, "aa cc bb");

    // Before the first word: the first two are swapped.
    let mut state = typed("aa bb");
    state.move_home();
    state.transpose_words();
    assert_eq!(state.content, "bb aa");
    assert_eq!(state.cursor_pos, 5);

    // A single word: nothing changes.
    let mut state = typed("solo");
    state.transpose_words();
    assert_eq!(state.content, "solo");
    assert_eq!(state.cursor_pos, 4);
}

#[test]
fn upcase_word_cursor_follows_the_recased_word() {
    // 'ı' (2 bytes) uppercases to 'I' (1 byte): the cursor ends after "I".
    let mut state = typed("\u{131}");
    state.move_home();
    state.upcase_word();
    assert_eq!(state.content, "I");
    assert_eq!(state.cursor_pos, 1);
    assert_eq!(state.cursor_col, 1);

    // A word that grows: 'ß' uppercases to "SS", of which the first is kept.
    let mut state = typed("\u{df}x y");
    state.move_home();
    state.upcase_word();
    assert_eq!(state.content, "SX y");
    assert_eq!(state.cursor_pos, 2);

    // Capitalizing keeps the full uppercase mapping of the first character.
    let mut state = typed("\u{df}x y");
    state.move_home();
    state.capitalize_word();
    assert_eq!(state.content, "SSx y");
    assert_eq!(state.cursor_pos, 3);
    assert_eq!(state.cursor_col, 3);
}
