//! Title bar state and the short session id.

use ucode_tui::title_bar::TitleBarState;

#[test]
fn title_bar_state_default() {
    let state = TitleBarState::new("main", "abc123def456", "2026-03-05");
    assert_eq!(state.session_title, "main");
    assert_eq!(state.session_id, "abc123def456");
    assert_eq!(state.date, "2026-03-05");
    assert!(state.parent_title.is_none());
    assert!(state.in_multiplexer.is_none());
}

#[test]
fn title_bar_short_session_id() {
    let state = TitleBarState::new("main", "ab", "2026-03-05");
    assert_eq!(state.short_id(), "ab");

    let state2 = TitleBarState::new("main", "abc123def", "2026-03-05");
    assert_eq!(state2.short_id(), "abc123");
}
