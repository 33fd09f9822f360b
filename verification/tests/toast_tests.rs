//! Toast notifications: levels, lifetimes and the visible stack.

use ucode_tui::toast::{Toast, ToastLevel, ToastState};

#[test]
fn test_toast_level_icons() {
    assert_eq!(ToastLevel::Info.icon(), "ℹ");
    assert_eq!(ToastLevel::Success.icon(), "✓");
    assert_eq!(ToastLevel::Warning.icon(), "⚠");
    assert_eq!(ToastLevel::Error.icon(), "✗");
}

#[test]
fn test_toast_level_auto_dismiss() {
    assert_eq!(ToastLevel::Info.auto_dismiss_ms(), Some(4000));
    assert_eq!(ToastLevel::Success.auto_dismiss_ms(), Some(4000));
    assert_eq!(ToastLevel::Warning.auto_dismiss_ms(), Some(8000));
    assert_eq!(ToastLevel::Error.auto_dismiss_ms(), None);
}

#[test]
fn test_toast_new() {
    let t = Toast::new(42, ToastLevel::Info, "hello");
    assert_eq!(t.id, 42);
    assert_eq!(t.level, ToastLevel::Info);
    assert_eq!(t.title, "hello");
    assert!(t.body.is_none());
    assert_eq!(t.dismiss_after_ms, Some(4000));
}

#[test]
fn test_toast_with_body() {
    let t = Toast::new(0, ToastLevel::Warning, "title").with_body("details");
    assert_eq!(t.body.as_deref(), Some("details"));
}

#[test]
fn test_toast_state_push() {
    let mut state = ToastState::new();
    state.push(ToastLevel::Info, "a");
    state.push(ToastLevel::Success, "b");
    assert_eq!(state.len(), 2);
}

#[test]
fn test_toast_state_dismiss() {
    let mut state = ToastState::new();
    let id = state.push(ToastLevel::Info, "hello");
    state.push(ToastLevel::Error, "world");
    state.dismiss(id);
    assert_eq!(state.len(), 1);
    assert_eq!(state.visible()[0].title, "world");
}

#[test]
fn test_toast_state_dismiss_top() {
    let mut state = ToastState::new();
    state.push(ToastLevel::Info, "first");
    state.push(ToastLevel::Info, "second");
    state.push(ToastLevel::Info, "third");
    state.dismiss_top();
    assert_eq!(state.len(), 2);
    // "third" (last pushed) should be gone
    assert!(state.visible().iter().all(|t| t.title != "third"));
}

#[test]
fn test_toast_state_visible_max_3() {
    let mut state = ToastState::new();
    for i in 0..5 {
        state.push(ToastLevel::Info, &format!("toast {i}"));
    }
    assert_eq!(state.len(), 5);
    let visible = state.visible();
    assert_eq!(visible.len(), 3);
    // Should be the last 3 pushed
    assert_eq!(visible[0].title, "toast 2");
    assert_eq!(visible[1].title, "toast 3");
    assert_eq!(visible[2].title, "toast 4");
}

#[test]
fn test_toast_state_error_persistent() {
    let mut state = ToastState::new();
    state.push(ToastLevel::Error, "critical");
    let removed = state.tick();
    assert!(!removed);
    assert_eq!(state.len(), 1);
}

#[test]
fn test_toast_state_clear() {
    let mut state = ToastState::new();
    state.push(ToastLevel::Info, "a");
    state.push(ToastLevel::Error, "b");
    state.clear();
    assert!(state.is_empty());
}

#[test]
fn retain_unexpired_follows_the_readings() {
    let mut state = ToastState::new();
    state.push(ToastLevel::Info, "info");
    let error_id = state.push(ToastLevel::Error, "error");
    let warn_id = state.push(ToastLevel::Warning, "warn");
    // Info (4 s) has expired after 5 s; Error never expires; Warning (8 s) has not.
    assert!(state.retain_unexpired(&vec![5000, 999_999, 5000]));
    let ids: Vec<u64> = state.visible().iter().map(|t| t.id).collect();
    assert_eq!(ids, vec![error_id, warn_id]);
    // Nothing expires at these readings: nothing is removed.
    assert!(!state.retain_unexpired(&vec![999_999, 7999]));
    assert_eq!(state.len(), 2);
    // The warning's delay is reached exactly.
    assert!(state.retain_unexpired(&vec![0, 8000]));
    let ids: Vec<u64> = state.visible().iter().map(|t| t.id).collect();
    assert_eq!(ids, vec![error_id]);
}

#[test]
fn tick_keeps_a_lone_error_toast() {
    let mut state = ToastState::new();
    state.push(ToastLevel::Error, "persistent");
    assert!(!state.tick());
    assert_eq!(state.len(), 1);
}

#[test]
fn push_ids_strictly_increase() {
    let mut state = ToastState::new();
    let a = state.push(ToastLevel::Info, "a");
    let b = state.push_with_body(ToastLevel::Info, "b", "body");
    state.dismiss(b);
    let c = state.push(ToastLevel::Info, "c");
    assert!(a < b && b < c);
}
