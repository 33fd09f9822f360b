//! Master/detail panel state: navigation, filter, focus and scrolling.

use ucode_tui::keybinds::{
    Action, InputMode, KeyCode, KeyEvent, KeyModifiers, KeybindPreset, KeybindResolver,
};
use ucode_tui::master_detail::{ListItem, MasterDetailState, PanelFocus};

#[test]
fn list_item_new() {
    let item = ListItem::new("Read", "✓", "45ms");
    assert_eq!(item.label, "Read");
    assert_eq!(item.status_icon, "✓");
    assert_eq!(item.detail, "45ms");
}

#[test]
fn master_detail_state_navigation() {
    let items = vec![
        ListItem::new("Read", "✓", "45ms"),
        ListItem::new("Edit", "✓", "12ms"),
        ListItem::new("Bash", "✗", "1.2s"),
    ];
    let mut state = MasterDetailState::new(items);
    assert_eq!(state.selected_index(), 0);

    state.select_next();
    assert_eq!(state.selected_index(), 1);

    state.select_next();
    state.select_next(); // clamps at last
    assert_eq!(state.selected_index(), 2);

    state.select_prev();
    assert_eq!(state.selected_index(), 1);
}

#[test]
fn master_detail_state_empty() {
    let state = MasterDetailState::new(Vec::new());
    assert_eq!(state.selected_index(), 0);
    assert!(state.selected_item().is_none());
}

#[test]
fn master_detail_state_selected_item() {
    let items = vec![
        ListItem::new("Read", "✓", "45ms"),
        ListItem::new("Edit", "✓", "12ms"),
    ];
    let mut state = MasterDetailState::new(items);
    state.select_next();
    let item = state.selected_item().unwrap();
    assert_eq!(item.label, "Edit");
}

#[test]
fn master_detail_state_set_buffer() {
    let items = vec![ListItem::new("Read", "✓", "45ms")];
    let mut state = MasterDetailState::new(items);
    state.set_buffer("# Output\nHello world".into());
    assert_eq!(state.buffer_content(), "# Output\nHello world");
}

#[test]
fn panel_focus_toggle() {
    let mut state = MasterDetailState::default();
    assert_eq!(state.focus, PanelFocus::Master);
    state.toggle_focus();
    assert_eq!(state.focus, PanelFocus::Detail);
    state.toggle_focus();
    assert_eq!(state.focus, PanelFocus::Master);
}

#[test]
fn buffer_scroll() {
    let mut state = MasterDetailState::default();
    state.set_buffer("line1\nline2\nline3\nline4\nline5".into());
    assert_eq!(state.buffer_scroll, 0);
    state.scroll_buffer_down(2);
    assert_eq!(state.buffer_scroll, 2);
    state.scroll_buffer_up(1);
    assert_eq!(state.buffer_scroll, 1);
    state.scroll_buffer_up(10); // clamps to 0
    assert_eq!(state.buffer_scroll, 0);
}

#[test]
fn master_detail_state_filter() {
    let items = vec![
        ListItem::new("Read", "✓", "45ms"),
        ListItem::new("Edit", "✓", "12ms"),
        ListItem::new("Bash", "✗", "1.2s"),
    ];
    let mut state = MasterDetailState::new(items);
    state.set_filter("ba");
    let visible = state.visible_items();
    assert_eq!(visible.len(), 1);
    assert_eq!(visible[0].label, "Bash");
}

#[test]
fn select_index_basic() {
    let items = vec![
        ListItem::new("Read", "✓", "45ms"),
        ListItem::new("Edit", "✓", "12ms"),
        ListItem::new("Bash", "✗", "1.2s"),
    ];
    let mut state = MasterDetailState::new(items);
    state.select_index(2);
    assert_eq!(state.selected_index(), 2);
    assert_eq!(state.selected_item().unwrap().label, "Bash");
}

#[test]
fn select_index_clamps_to_last() {
    let items = vec![
        ListItem::new("Read", "✓", "45ms"),
        ListItem::new("Edit", "✓", "12ms"),
    ];
    let mut state = MasterDetailState::new(items);
    state.select_index(99);
    assert_eq!(state.selected_index(), 1);
}

#[test]
fn select_index_on_empty_list() {
    let mut state = MasterDetailState::new(Vec::new());
    state.select_index(5); // must not panic
    assert_eq!(state.selected_index(), 0);
}

#[test]
fn clamp_buffer_scroll_prevents_overscroll() {
    let mut state = MasterDetailState::default();
    // 5 lines of content, viewport of 3 rows → max scroll = 2.
    state.set_buffer("a\nb\nc\nd\ne".into());
    state.scroll_buffer_down(100);
    assert_eq!(state.buffer_scroll, 100); // unclamped yet
    state.clamp_buffer_scroll(3);
    assert_eq!(state.buffer_scroll, 2);
}

#[test]
fn clamp_buffer_scroll_viewport_larger_than_content() {
    let mut state = MasterDetailState::default();
    state.set_buffer("a\nb".into());
    state.scroll_buffer_down(5);
    state.clamp_buffer_scroll(10); // viewport bigger than content → clamp to 0
    assert_eq!(state.buffer_scroll, 0);
}

#[test]
fn vim_insert_mode_tab_switching_not_suppressed() {
    let mut resolver = KeybindResolver::new(KeybindPreset::Vim);
    resolver.set_mode(InputMode::Insert);

    let make_press = |code, mods| KeyEvent::new(code, mods);

    // Alt+1..5 and Alt+h/l must resolve even in insert mode.
    assert_eq!(
        resolver.resolve(&make_press(KeyCode::Char('1'), KeyModifiers::ALT)),
        Some(Action::SelectTab1)
    );
    assert_eq!(
        resolver.resolve(&make_press(KeyCode::Char('5'), KeyModifiers::ALT)),
        Some(Action::SelectTab5)
    );
    assert_eq!(
        resolver.resolve(&make_press(KeyCode::Char('l'), KeyModifiers::ALT)),
        Some(Action::NextTab)
    );
    assert_eq!(
        resolver.resolve(&make_press(KeyCode::Char('h'), KeyModifiers::ALT)),
        Some(Action::PrevTab)
    );
}

#[test]
fn focus_and_scroll_leave_the_rest_alone() {
    let mut state = MasterDetailState::new(items(&["alpha", "beta", "gamma"]));
    state.set_filter("a");
    state.select_next();
    state.set_buffer("l1\nl2\nl3\nl4\nl5".to_string());
    state.buffer_scroll = 100;
    state.list_scroll = 7;
    let (sel, filter) = (state.selected_index(), state.filter().to_string());

    state.toggle_focus();
    state.toggle_focus();
    assert_eq!(state.focus, PanelFocus::Master);
    state.focus_detail();
    state.scroll_buffer_down(3);
    state.scroll_buffer_up(1);
    state.clamp_buffer_scroll(3);
    assert_eq!(state.buffer_scroll, 2);
    state.focus_master();
    assert_eq!(state.selected_index(), sel);
    assert_eq!(state.filter(), filter);
    assert_eq!(state.list_scroll, 7);
    assert_eq!(state.buffer_content(), "l1\nl2\nl3\nl4\nl5");
    assert_eq!(state.selected_item().unwrap().label, "beta");

    let mut small = MasterDetailState::new(Vec::new());
    small.set_buffer("a\nb".to_string());
    small.buffer_scroll = 5;
    small.clamp_buffer_scroll(10);
    assert_eq!(small.buffer_scroll, 0);
}

fn items(labels: &[&str]) -> Vec<ListItem> {
    labels.iter().map(|l| ListItem::new(l, "", "")).collect()
}
