//! Tab strip state: cycling, selection, badges and hit testing.

use ucode_tui::tab_bar::{TabBarState, TabId};

#[test]
fn tab_id_all_returns_five() {
    assert_eq!(TabId::all().len(), 5);
}

#[test]
fn tab_id_labels() {
    assert_eq!(TabId::Chat.label(), "Chat");
    assert_eq!(TabId::Subagents.label(), "Subagents");
    assert_eq!(TabId::Tools.label(), "Tools");
    assert_eq!(TabId::Mcp.label(), "MCP");
    assert_eq!(TabId::Logs.label(), "Logs");
}

#[test]
fn tab_state_next_wraps() {
    let mut state = TabBarState::new();
    assert_eq!(state.active, TabId::Chat);
    state.next();
    assert_eq!(state.active, TabId::Subagents);
    state.next();
    state.next();
    state.next(); // Logs
    state.next(); // wraps to Chat
    assert_eq!(state.active, TabId::Chat);
}

#[test]
fn tab_state_prev_wraps() {
    let mut state = TabBarState::new();
    state.prev(); // wraps to Logs
    assert_eq!(state.active, TabId::Logs);
}

#[test]
fn tab_state_select_by_index() {
    let mut state = TabBarState::new();
    state.select(2); // Tools (0-indexed)
    assert_eq!(state.active, TabId::Tools);
}

#[test]
fn tab_state_select_out_of_bounds_noop() {
    let mut state = TabBarState::new();
    state.select(99);
    assert_eq!(state.active, TabId::Chat); // unchanged
}

#[test]
fn tab_state_badge_counts() {
    let mut state = TabBarState::new();
    state.set_badge(TabId::Subagents, 3);
    state.set_badge(TabId::Logs, 1);
    assert_eq!(state.badge(TabId::Subagents), Some(3));
    assert_eq!(state.badge(TabId::Logs), Some(1));
    assert_eq!(state.badge(TabId::Chat), None);
}

#[test]
fn tab_state_hit_test() {
    let mut state = TabBarState::new();
    state.set_badge(TabId::Subagents, 3);
    // Layout: 1-pad, " Chat "(7), "│"(1), " Subagents (3) "(16), "│"(1), ...
    // area_x = 0
    // Chat: cols 1..8 (text) + 8 (sep) = 1..9
    // Subagents: cols 9..25 (text) + 25 (sep) = 9..26
    assert_eq!(state.hit_test(1, 0), Some(TabId::Chat));
    assert_eq!(state.hit_test(5, 0), Some(TabId::Chat));
    assert_eq!(state.hit_test(9, 0), Some(TabId::Subagents));
    assert_eq!(state.hit_test(0, 0), None); // in the padding
}
