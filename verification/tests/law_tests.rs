//! Concrete instances of the library's laws, formulas and edge cases.

use ucode_tui::clipboard::{
    base64_encode, clipboard_next, clipboard_start, external_tool_args, external_tool_for,
    multiplexer_name, write_osc52, ClipboardError, ClipboardEvent, ClipboardMethod,
    ClipboardNext, ClipboardStep,
};
use ucode_tui::connect::{oauth_flow_for, OAuthFlow};
use ucode_tui::command_registry::{CommandCategory, CommandDef, CommandRegistry, CommandSource};
use ucode_tui::date::{civil_from_days, format_date_from_secs, is_leap};
use ucode_tui::input::{cursor_line_and_col, InputBoxState};
use ucode_tui::keybinds::{
    Action, InputMode, KeyCode, KeyCombo, KeyEvent, KeyEventKind, KeyModifiers, KeybindPreset,
    KeybindResolver,
};
use ucode_tui::master_detail::{ListItem, MasterDetailState};
use ucode_tui::sidebar::{truncate_str, PluginSidebarSection, SectionId, SidebarData};
use ucode_tui::tab_bar::{TabBarState, TabId};
use ucode_tui::title_bar::TitleBarState;
use ucode_tui::toast::{ToastLevel, ToastState};
use ucode_tui::transcript::{
    entry_height, highlight_line_range, wrap_text, HighlightSegment, StreamingMessage,
    TranscriptEntry,
};

fn typed(text: &str) -> InputBoxState {
    let mut s = InputBoxState::new();
    for c in text.chars() {
        if c == '\n' {
            s.insert_newline();
        } else {
            s.insert_char(c);
        }
    }
    s
}

fn section(plugin: &str, id: &str, title: &str) -> PluginSidebarSection {
    PluginSidebarSection {
        plugin_name: plugin.into(),
        section_id: id.into(),
        title: title.into(),
        lines: vec![],
        priority: 100,
        collapsed: false,
    }
}

// ---------------------------------------------------------------------------
// Key bindings
// ---------------------------------------------------------------------------

#[test]
fn override_then_resolve_in_every_preset() {
    for preset in [KeybindPreset::Vscode, KeybindPreset::Vim, KeybindPreset::Emacs] {
        let mut r = KeybindResolver::new(preset);
        let combo = KeyCombo::new(KeyCode::F(5), KeyModifiers::NONE);
        r.override_binding(combo, Action::ToggleSidebar);
        assert_eq!(r.resolve(&KeyEvent::new(KeyCode::F(5), 0)), Some(Action::ToggleSidebar));
    }
}

#[test]
fn removed_binding_never_resolves() {
    let mut r = KeybindResolver::new(KeybindPreset::Emacs);
    let combo = KeyCombo::new(KeyCode::Char('n'), KeyModifiers::CONTROL);
    assert_eq!(r.remove_binding(&combo), Some(Action::ScrollDown));
    assert_eq!(r.resolve(&KeyEvent::new(KeyCode::Char('n'), KeyModifiers::CONTROL)), None);
    assert_eq!(r.remove_binding(&combo), None);
}

#[test]
fn repeats_and_releases_do_not_resolve() {
    let r = KeybindResolver::new(KeybindPreset::Vscode);
    for kind in [KeyEventKind::Repeat, KeyEventKind::Release] {
        let ev = KeyEvent { code: KeyCode::Char('q'), modifiers: KeyModifiers::CONTROL, kind };
        assert_eq!(r.resolve(&ev), None);
    }
}

#[test]
fn ctrl_q_exits_in_every_preset_and_mode() {
    for preset in [KeybindPreset::Vscode, KeybindPreset::Vim, KeybindPreset::Emacs] {
        for mode in [InputMode::Normal, InputMode::Insert] {
            let mut r = KeybindResolver::new(preset);
            r.set_mode(mode);
            let ev = KeyEvent::new(KeyCode::Char('q'), KeyModifiers::CONTROL);
            assert_eq!(r.resolve(&ev), Some(Action::Exit));
        }
    }
}

#[test]
fn vim_modes_suppress_actions() {
    let mut r = KeybindResolver::new(KeybindPreset::Vim);
    // Normal mode: Enter does not send.
    assert_eq!(r.resolve(&KeyEvent::new(KeyCode::Enter, 0)), None);
    r.set_mode(InputMode::Insert);
    assert_eq!(r.resolve(&KeyEvent::new(KeyCode::Enter, 0)), Some(Action::SendMessage));
    // Insert mode: j is text, not scrolling.
    assert_eq!(r.resolve(&KeyEvent::new(KeyCode::Char('j'), 0)), None);
}

// ---------------------------------------------------------------------------
// Toasts
// ---------------------------------------------------------------------------

#[test]
fn dismissing_the_pushed_toast_restores_the_stack() {
    let mut s = ToastState::new();
    s.push(ToastLevel::Info, "a");
    s.push(ToastLevel::Warning, "b");
    let id = s.push_with_body(ToastLevel::Error, "c", "details");
    assert_eq!(s.len(), 3);
    s.dismiss(id);
    assert_eq!(s.len(), 2);
    let v = s.visible();
    assert_eq!(v[0].title, "a");
    assert_eq!(v[1].title, "b");
}

#[test]
fn toast_ids_are_fresh() {
    let mut s = ToastState::new();
    let a = s.push(ToastLevel::Info, "a");
    let b = s.push(ToastLevel::Info, "b");
    s.dismiss(a);
    let c = s.push(ToastLevel::Info, "c");
    assert!(a != b && b != c && a != c);
    assert_eq!(s.len(), 2);
}

#[test]
fn tick_keeps_fresh_and_persistent_toasts() {
    let mut s = ToastState::new();
    s.push(ToastLevel::Info, "fresh");
    s.push(ToastLevel::Error, "persistent");
    assert!(!s.tick());
    assert_eq!(s.len(), 2);
    s.dismiss_top();
    assert_eq!(s.len(), 1);
    assert_eq!(s.visible()[0].title, "fresh");
}

// ---------------------------------------------------------------------------
// Tabs
// ---------------------------------------------------------------------------

#[test]
fn next_then_prev_returns_to_each_tab() {
    for i in 0..5 {
        let mut s = TabBarState::new();
        s.select(i);
        let start = s.active;
        s.next();
        s.prev();
        assert_eq!(s.active, start);
        s.prev();
        s.next();
        assert_eq!(s.active, start);
    }
}

#[test]
fn tab_badge_cleared_by_zero_and_hit_test_past_end() {
    let mut s = TabBarState::new();
    s.set_badge(TabId::Tools, 12);
    assert_eq!(s.badge(TabId::Tools), Some(12));
    s.set_badge(TabId::Tools, 0);
    assert_eq!(s.badge(TabId::Tools), None);
    assert_eq!(s.hit_test(500, 0), None);
    // " Chat " + separator spans columns 1..8 with the strip at 10.
    assert_eq!(s.hit_test(11, 10), Some(TabId::Chat));
    assert_eq!(s.hit_test(10, 10), None);
}

// ---------------------------------------------------------------------------
// Prompt editor
// ---------------------------------------------------------------------------

#[test]
fn insert_then_delete_restores_text_and_cursor() {
    let mut s = typed("héllo wörld");
    s.move_left();
    s.move_left();
    let before = s.content.clone();
    let pos = s.cursor_pos;
    let col = s.cursor_col;
    s.insert_char('é');
    s.delete_char();
    assert_eq!(s.content, before);
    assert_eq!(s.cursor_pos, pos);
    assert_eq!(s.cursor_col, col);
}

#[test]
fn kill_to_end_then_yank_restores_text() {
    let mut s = typed("first line\nsecond");
    s.move_home();
    s.move_up();
    s.kill_to_end();
    assert_eq!(s.content, "\nsecond");
    assert_eq!(s.kill_ring, "first line");
    s.yank();
    assert_eq!(s.content, "first line\nsecond");
    assert_eq!(s.cursor_pos, 10);
}

#[test]
fn kill_to_start_then_yank_restores_text_and_cursor() {
    let mut s = typed("abc\ndef");
    s.move_left();
    let pos = s.cursor_pos;
    s.kill_to_start();
    assert_eq!(s.content, "abc\nf");
    s.yank();
    assert_eq!(s.content, "abc\ndef");
    assert_eq!(s.cursor_pos, pos);
}

#[test]
fn wide_characters_advance_two_columns() {
    let mut s = typed("日本");
    assert_eq!(s.cursor_pos, 6);
    assert_eq!(s.cursor_col, 4);
    s.move_left();
    assert_eq!(s.cursor_pos, 3);
    assert_eq!(s.cursor_col, 2);
}

#[test]
fn word_motion_uses_alphanumerics() {
    let mut s = typed("foo_bar, baz9");
    s.move_word_left();
    assert_eq!(s.cursor_pos, 9);
    s.move_word_left();
    assert_eq!(s.cursor_pos, 0);
    s.move_word_right();
    assert_eq!(s.cursor_pos, 7);
}

#[test]
fn upcase_handles_non_ascii() {
    let mut s = typed("straße ok");
    s.move_home();
    s.upcase_word();
    // Each character takes the first character of its uppercase mapping,
    // and the cursor goes to the end of the recased word.
    assert_eq!(s.content, "STRASE ok");
    assert_eq!(s.cursor_pos, 6);
}

#[test]
fn delete_at_start_and_forward_at_end_do_nothing() {
    let mut s = typed("ab");
    s.delete_forward();
    assert_eq!(s.content, "ab");
    s.move_home();
    s.delete_char();
    assert_eq!(s.content, "ab");
    assert_eq!(s.cursor_pos, 0);
}

#[test]
fn cursor_line_and_col_counts_lines_and_columns() {
    assert_eq!(cursor_line_and_col("ab\ncd日", 5), (1, 2));
    assert_eq!(cursor_line_and_col("ab\ncd日", 8), (1, 4));
    assert_eq!(cursor_line_and_col("ab\ncd日", 99), (1, 4));
    assert_eq!(cursor_line_and_col("", 0), (0, 0));
}

// ---------------------------------------------------------------------------
// Command registry
// ---------------------------------------------------------------------------

#[test]
fn registered_command_is_resolved_and_removed_with_its_plugin() {
    let mut reg = CommandRegistry::with_builtins();
    reg.register(CommandDef {
        name: "/fmt".to_owned(),
        description: "Format code".to_owned(),
        category: CommandCategory::Plugins,
        source: CommandSource::Plugin("fmt".to_owned()),
        args_hint: Some("<path>".to_owned()),
        action: None,
    });
    assert_eq!(reg.resolve("/fmt").unwrap().description, "Format code");
    reg.remove_by_source_name("fmt");
    assert!(reg.resolve("/fmt").is_none());
    assert_eq!(reg.list().len(), 10);
    assert_eq!(reg.resolve("/connect").unwrap().action, Some(Action::OpenConnect));
}

#[test]
fn search_matches_lowercased_descriptions_in_order() {
    let reg = CommandRegistry::with_builtins();
    let r = reg.search("RESTORE");
    assert_eq!(r.len(), 1);
    assert_eq!(r[0].name, "/rollback");
    let s = reg.search("sessions");
    assert_eq!(s.len(), 1);
    assert_eq!(s[0].name, "/session list");
}

#[test]
fn suggest_uses_shared_prefix_after_slashes() {
    let reg = CommandRegistry::with_builtins();
    let names: Vec<String> = reg.suggest("jo").iter().map(|c| c.name.clone()).collect();
    assert_eq!(names, vec!["/jobs".to_owned()]);
    let none = reg.suggest("zzz");
    assert!(none.is_empty());
}

#[test]
fn category_labels() {
    assert_eq!(CommandCategory::Session.label(), "session");
    assert_eq!(CommandCategory::Plugins.label(), "plugins");
}

// ---------------------------------------------------------------------------
// Master/detail
// ---------------------------------------------------------------------------

#[test]
fn filter_keeps_matching_items_and_selection_in_range() {
    let items = vec![
        ListItem::new("Alpha", "", ""),
        ListItem::new("beta", "", ""),
        ListItem::new("ALPHABET", "", ""),
    ];
    let mut s = MasterDetailState::new(items);
    s.set_filter("ALP");
    assert_eq!(s.filter(), "alp");
    let v = s.visible_items();
    assert_eq!(v.len(), 2);
    assert_eq!(v[0].label, "Alpha");
    assert_eq!(v[1].label, "ALPHABET");
    s.select_next();
    s.select_next();
    assert_eq!(s.selected_index(), 1);
    assert_eq!(s.selected_item().unwrap().label, "ALPHABET");
    s.set_items(vec![ListItem::new("alpine", "", "")]);
    assert_eq!(s.selected_index(), 0);
}

#[test]
fn clamp_counts_a_trailing_newline_as_no_extra_line() {
    let mut s = MasterDetailState::default();
    s.set_buffer("a\nb\nc\n".into());
    s.scroll_buffer_down(50);
    s.clamp_buffer_scroll(1);
    assert_eq!(s.buffer_scroll, 2);
}

// ---------------------------------------------------------------------------
// Sidebar
// ---------------------------------------------------------------------------

#[test]
fn toggling_twice_restores_collapse_state() {
    let mut d = SidebarData::new();
    for id in SectionId::all() {
        d.toggle_section(id);
        d.toggle_section(id);
        assert!(!d.is_collapsed(id));
    }
}

#[test]
fn registering_keeps_section_ids_unique() {
    let mut d = SidebarData::default();
    d.register_plugin_section(section("p", "one", "1"));
    d.register_plugin_section(section("q", "two", "2"));
    d.register_plugin_section(section("p", "one", "1b"));
    assert_eq!(d.plugin_sections.len(), 2);
    assert_eq!(d.plugin_sections[0].title, "1b");
    d.remove_plugin_sections("p");
    assert_eq!(d.plugin_sections.len(), 1);
    assert_eq!(d.plugin_sections[0].section_id, "two");
}

// ---------------------------------------------------------------------------
// Transcript
// ---------------------------------------------------------------------------

#[test]
fn wrap_keeps_blank_paragraphs_and_long_words() {
    assert_eq!(wrap_text("a\n\nb", 10), vec!["a", "", "b"]);
    assert_eq!(wrap_text("tiny enormousword x", 5), vec!["tiny", "enormousword", "x"]);
    assert_eq!(wrap_text("  spaced   out  ", 20), vec!["spaced out"]);
    assert_eq!(wrap_text("\n", 4), vec!["", ""]);
}

#[test]
fn wrap_measures_wide_characters() {
    // Each ideograph is two columns wide: "日本 語" needs 7 columns on one line.
    assert_eq!(wrap_text("日本 語", 7), vec!["日本 語"]);
    assert_eq!(wrap_text("日本 語", 6), vec!["日本", "語"]);
}

#[test]
fn wrapped_lines_never_outnumber_characters_plus_one() {
    for text in ["a b c d e f", "x\n\n\n", "", "word"] {
        for width in [0u16, 1, 3, 80] {
            assert!(wrap_text(text, width).len() <= text.chars().count() + 1);
        }
    }
}

#[test]
fn entry_heights_for_markdown_and_events() {
    let assistant = TranscriptEntry::AssistantMessage("x".to_owned());
    assert_eq!(entry_height(&assistant, 80, 0), 2);
    assert_eq!(entry_height(&assistant, 80, 5), 6);
    let streaming = TranscriptEntry::Streaming(StreamingMessage::new());
    assert_eq!(entry_height(&streaming, 80, 0), 1);
    assert_eq!(entry_height(&streaming, 80, 3), 3);
    let patch = TranscriptEntry::PatchProposed {
        file_path: "a.rs".to_owned(),
        raw_diff: String::new(),
        patch_id: None,
    };
    assert_eq!(entry_height(&patch, 80, 9), 2);
    let user = TranscriptEntry::UserMessage("aa bb cc".to_owned());
    // The "│ " gutter leaves 5 columns at width 7: "aa bb" / "cc".
    assert_eq!(entry_height(&user, 7, 0), 3);
    // A gutter wider than the width leaves no room: no lines, one row kept.
    assert_eq!(entry_height(&user, 1, 0), 2);
}

#[test]
fn empty_tool_blocks_take_no_rows() {
    let e = TranscriptEntry::ToolCall {
        name: "x".to_owned(),
        status: ucode_tui::transcript::ToolCallStatus::Running,
        duration_ms: None,
        summary: None,
        thinking: Some(String::new()),
        output: Some("out".to_owned()),
    };
    assert_eq!(entry_height(&e, 80, 0), 3);
}

#[test]
fn streaming_message_equality_ignores_start_time() {
    let mut a = StreamingMessage::new();
    let mut b = StreamingMessage::default();
    a.push_token("x");
    b.push_token("x");
    assert!(a == b);
    b.finalize();
    assert!(a != b);
}

// ---------------------------------------------------------------------------
// Clipboard
// ---------------------------------------------------------------------------

#[test]
fn base64_matches_rfc_vectors() {
    let cases = [
        ("", ""),
        ("f", "Zg=="),
        ("fo", "Zm8="),
        ("foo", "Zm9v"),
        ("foob", "Zm9vYg=="),
        ("fooba", "Zm9vYmE="),
        ("foobar", "Zm9vYmFy"),
    ];
    for (input, expected) in cases {
        assert_eq!(base64_encode(input.as_bytes()), expected);
    }
    assert_eq!(base64_encode(&[0xff, 0xfe, 0xfd]), "//79");
}

#[test]
fn osc52_encodes_utf8_and_appends() {
    let mut buf: Vec<u8> = b"prev".to_vec();
    write_osc52("é", &mut buf).unwrap();
    assert_eq!(buf, b"prev\x1b]52;c;w6k=\x07".to_vec());
}

#[test]
fn multiplexer_priority() {
    assert_eq!(multiplexer_name(true, true, true), Some("tmux"));
    assert_eq!(multiplexer_name(false, true, true), Some("zellij"));
    assert_eq!(multiplexer_name(false, false, true), Some("screen"));
}

#[test]
fn tool_choice_and_arguments() {
    assert_eq!(external_tool_for(true, false, false, false, false), Some("clip.exe"));
    assert_eq!(external_tool_for(false, true, true, true, true), Some("wl-copy"));
    assert_eq!(external_tool_for(false, true, false, true, true), Some("xclip"));
    assert_eq!(external_tool_for(false, false, true, false, true), Some("xsel"));
    assert_eq!(external_tool_for(false, false, false, false, false), None);
    assert_eq!(external_tool_args("xclip"), vec!["-selection", "clipboard"]);
    assert_eq!(external_tool_args("xsel"), vec!["--clipboard", "--input"]);
    assert!(external_tool_args("pbcopy").is_empty());
}

#[test]
fn fallback_chain_decisions() {
    assert!(matches!(clipboard_start(ClipboardMethod::Osc52), ClipboardStep::Osc52));
    assert!(matches!(clipboard_start(ClipboardMethod::External), ClipboardStep::DetectTool));
    assert!(matches!(clipboard_start(ClipboardMethod::File), ClipboardStep::File));

    let m = ClipboardMethod::Osc52;
    let failed = ClipboardEvent::Osc52Written(Err(ClipboardError::Osc52WriteFailed("x".into())));
    assert!(matches!(clipboard_next(m, failed), ClipboardNext::Run(ClipboardStep::DetectTool)));
    assert!(matches!(
        clipboard_next(m, ClipboardEvent::ToolDetected(None)),
        ClipboardNext::Run(ClipboardStep::File)
    ));
    assert!(matches!(
        clipboard_next(ClipboardMethod::External, ClipboardEvent::ToolDetected(None)),
        ClipboardNext::Finish(Err(ClipboardError::ExternalToolNotFound))
    ));
    assert!(matches!(
        clipboard_next(m, ClipboardEvent::ToolDetected(Some("xsel"))),
        ClipboardNext::Run(ClipboardStep::External("xsel"))
    ));
    let tool_failed =
        ClipboardEvent::ExternalWritten(Err(ClipboardError::ExternalToolFailed("y".into())));
    assert!(matches!(clipboard_next(m, tool_failed), ClipboardNext::Run(ClipboardStep::File)));
    assert!(matches!(
        clipboard_next(m, ClipboardEvent::ExternalWritten(Ok(()))),
        ClipboardNext::Finish(Ok(()))
    ));
    assert!(matches!(
        clipboard_next(ClipboardMethod::File, ClipboardEvent::FileWritten(Ok(()))),
        ClipboardNext::Finish(Ok(()))
    ));
}

// ---------------------------------------------------------------------------
// Dates and the title bar
// ---------------------------------------------------------------------------

#[test]
fn leap_years() {
    assert!(is_leap(2000));
    assert!(!is_leap(1900));
    assert!(is_leap(2024));
    assert!(!is_leap(2023));
}

#[test]
fn dates_around_leap_days_and_year_ends() {
    // 2024-02-29 is day 19782; 1970-12-31 is day 364; 1972-12-31 is day 1095.
    assert_eq!(format_date_from_secs(19782 * 86_400 + 86_399), "2024-02-29");
    assert_eq!(format_date_from_secs(19783 * 86_400), "2024-03-01");
    assert_eq!(format_date_from_secs(364 * 86_400), "1970-12-31");
    assert_eq!(format_date_from_secs(365 * 86_400), "1971-01-01");
    assert_eq!(civil_from_days(1095), (1972, 12, 31));
    assert_eq!(civil_from_days(2932896), (9999, 12, 31));
    assert_eq!(format_date_from_secs(2932897 * 86_400), "10000-01-01");
}

#[test]
fn short_id_counts_characters() {
    let s = TitleBarState::new("t", "ééééééé", "d");
    assert_eq!(s.short_id(), "éééééé");
    let e = TitleBarState::new("t", "", "d");
    assert_eq!(e.short_id(), "");
}

#[test]
fn tab_keys_in_every_preset_and_mode() {
    for preset in [KeybindPreset::Vscode, KeybindPreset::Vim, KeybindPreset::Emacs] {
        for mode in [InputMode::Normal, InputMode::Insert] {
            let mut r = KeybindResolver::new(preset);
            r.set_mode(mode);
            let alt = |c| KeyEvent::new(KeyCode::Char(c), KeyModifiers::ALT);
            assert_eq!(r.resolve(&alt('3')), Some(Action::SelectTab3));
            assert_eq!(r.resolve(&alt('l')), Some(Action::NextTab));
            assert_eq!(r.resolve(&alt('h')), Some(Action::PrevTab));
        }
    }
}

// ---------------------------------------------------------------------------
// Highlighting, truncation, key combos and sign-in flows
// ---------------------------------------------------------------------------

fn segs(v: &[HighlightSegment<u8>]) -> Vec<(String, u8, bool)> {
    v.iter().map(|g| (g.text.clone(), g.style, g.selected)).collect()
}

#[test]
fn highlight_splits_spans_at_the_range() {
    let spans = vec![("hello".to_owned(), 1u8), (" world".to_owned(), 2u8)];
    let r = highlight_line_range(&spans, 2, 7);
    assert_eq!(
        segs(&r),
        vec![
            ("he".to_owned(), 1, false),
            ("llo".to_owned(), 1, true),
            (" w".to_owned(), 2, true),
            ("orld".to_owned(), 2, false),
        ]
    );
    let joined: String = r.iter().map(|g| g.text.as_str()).collect();
    assert_eq!(joined, "hello world");
}

#[test]
fn highlight_counts_wide_characters_and_empty_ranges() {
    let spans = vec![("日本語".to_owned(), 0u8)];
    let r = highlight_line_range(&spans, 2, 4);
    assert_eq!(
        segs(&r),
        vec![
            ("日".to_owned(), 0, false),
            ("本".to_owned(), 0, true),
            ("語".to_owned(), 0, false),
        ]
    );
    let none = highlight_line_range(&spans, 3, 3);
    assert_eq!(segs(&none), vec![("日本語".to_owned(), 0, false)]);
    let outside = highlight_line_range(&spans, 10, 12);
    assert_eq!(segs(&outside), vec![("日本語".to_owned(), 0, false)]);
}

#[test]
fn truncate_counts_characters() {
    assert_eq!(truncate_str("héllo", 3), "hél");
    assert_eq!(truncate_str("hi", 3), "hi");
    assert_eq!(truncate_str("abc", 0), "");
}

#[test]
fn combo_from_event() {
    let ev = KeyEvent { code: KeyCode::Tab, modifiers: KeyModifiers::SHIFT, kind: KeyEventKind::Release };
    let c: KeyCombo = KeyCombo::from(&ev);
    assert_eq!(c, KeyCombo::new(KeyCode::Tab, KeyModifiers::SHIFT));
}

#[test]
fn oauth_flow_choice() {
    assert_eq!(oauth_flow_for("openai", "Plus plan"), Some(OAuthFlow::OpenAiSubscription));
    assert_eq!(oauth_flow_for("anthropic", "Max plan"), Some(OAuthFlow::AnthropicMax));
    assert_eq!(oauth_flow_for("anthropic", "Console"), Some(OAuthFlow::AnthropicConsole));
    assert_eq!(oauth_flow_for("ollama", "Max"), None);
}
