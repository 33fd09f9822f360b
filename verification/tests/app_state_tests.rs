//! Session state: transcript, streaming, scrolling, redraws and commands.

use ucode_tui::app_state::{dispatch_action, AppState};
use ucode_tui::input::{AutocompleteEntry, InputBoxState};
use ucode_tui::keybinds::{Action, InputMode};
use ucode_tui::command_registry::CommandSource;
use ucode_tui::transcript::{FocusTarget, ToolCallStatus, TranscriptEntry};

#[test]
fn app_state_new_defaults() {
    let app = AppState::new();
    assert!(app.auto_scroll);
    assert!(app.dirty);
    assert!(!app.streaming);
    assert_eq!(app.focus, FocusTarget::Input);
    assert_eq!(app.scroll_offset, 0);
    assert!(app.transcript.is_empty());
}

#[test]
fn app_state_push_user_message() {
    let mut app = AppState::new();
    app.push_user_message("hello".to_owned());
    assert_eq!(app.transcript.len(), 1);
    assert_eq!(
        app.transcript[0],
        TranscriptEntry::UserMessage("hello".to_owned())
    );
}

#[test]
fn app_state_streaming_lifecycle() {
    let mut app = AppState::new();
    app.start_streaming();
    assert!(app.streaming);
    assert_eq!(app.transcript.len(), 1);
    assert!(matches!(app.transcript[0], TranscriptEntry::Streaming(_)));

    app.push_token("Hello");
    app.push_token(" ");
    app.push_token("world");

    app.finalize_streaming();
    assert!(!app.streaming);
    assert_eq!(app.transcript.len(), 1);
    assert_eq!(
        app.transcript[0],
        TranscriptEntry::AssistantMessage("Hello world".to_owned())
    );
}

#[test]
fn app_state_scroll_disengages_auto_scroll() {
    let mut app = AppState::new();
    app.push_user_message("msg".to_owned());
    assert!(app.auto_scroll);
    app.scroll_up(1);
    assert!(!app.auto_scroll);
}

#[test]
fn app_state_scroll_to_bottom_reengages() {
    let mut app = AppState::new();
    app.push_user_message("msg".to_owned());
    app.scroll_up(1);
    assert!(!app.auto_scroll);
    app.scroll_to_bottom();
    assert!(app.auto_scroll);
}

#[test]
fn app_state_push_tool_call() {
    let mut app = AppState::new();
    let idx = app.push_tool_call("read_file".to_owned());
    assert_eq!(idx, 0);
    match &app.transcript[0] {
        TranscriptEntry::ToolCall { name, status, .. } => {
            assert_eq!(name, "read_file");
            assert_eq!(*status, ToolCallStatus::Running);
        }
        _ => panic!("expected ToolCall"),
    }
}

#[test]
fn app_state_update_tool_call() {
    let mut app = AppState::new();
    let idx = app.push_tool_call("write_file".to_owned());
    app.update_tool_call(
        idx,
        ToolCallStatus::Success,
        Some(42),
        Some("wrote 3 lines".to_owned()),
        None,
        None,
    );
    match &app.transcript[idx] {
        TranscriptEntry::ToolCall {
            status,
            duration_ms,
            summary,
            ..
        } => {
            assert_eq!(*status, ToolCallStatus::Success);
            assert_eq!(*duration_ms, Some(42));
            assert_eq!(summary.as_deref(), Some("wrote 3 lines"));
        }
        _ => panic!("expected ToolCall"),
    }
}

#[test]
fn update_tool_call_with_thinking_and_output() {
    let mut app = AppState::new();
    let idx = app.push_tool_call("search".to_owned());
    app.update_tool_call(
        idx,
        ToolCallStatus::Success,
        Some(150),
        Some("query=foo".to_owned()),
        Some("Let me search for foo".to_owned()),
        Some("Found 5 matches".to_owned()),
    );
    match &app.transcript[idx] {
        TranscriptEntry::ToolCall {
            thinking, output, ..
        } => {
            assert_eq!(thinking.as_deref(), Some("Let me search for foo"));
            assert_eq!(output.as_deref(), Some("Found 5 matches"));
        }
        other => panic!("expected ToolCall, got {other:?}"),
    }
}

#[test]
fn test_execute_command_known() {
    let mut app = AppState::new();
    let result = app.execute_command("connect", &[]);
    assert!(result, "known command should return true");
    // Should have two system messages: the echo and the "not yet implemented" note.
    let sys_msgs: Vec<_> = app
        .transcript
        .iter()
        .filter_map(|e| {
            if let TranscriptEntry::SystemMessage(m) = e {
                Some(m.as_str())
            } else {
                None
            }
        })
        .collect();
    assert!(
        sys_msgs.iter().any(|m| m.contains("connect")),
        "transcript should mention the command name"
    );
}

#[test]
fn test_execute_command_unknown() {
    let mut app = AppState::new();
    let result = app.execute_command("nonexistent", &[]);
    assert!(!result, "unknown command should return false");
    let has_unknown = app.transcript.iter().any(
        |e| matches!(e, TranscriptEntry::SystemMessage(m) if m.contains("Unknown command")),
    );
    assert!(has_unknown, "should emit Unknown command message");
}

#[test]
fn test_execute_command_with_slash_prefix() {
    let mut app = AppState::new();
    // With leading slash — same as without.
    let result = app.execute_command("/connect", &[]);
    assert!(result, "execute_command should accept names with leading /");
}

#[test]
fn test_execute_command_unknown_shows_suggestions() {
    let mut app = AppState::new();
    // "conect" is close enough to "/connect" to get a suggestion.
    let result = app.execute_command("conect", &[]);
    assert!(!result);
    let has_suggestion = app
        .transcript
        .iter()
        .any(|e| matches!(e, TranscriptEntry::SystemMessage(m) if m.contains("Did you mean")));
    assert!(has_suggestion, "should suggest similar commands");
}

#[test]
fn test_execute_command_with_args() {
    let mut app = AppState::new();
    let args = vec!["my-session".to_owned()];
    // "/session rename" is a known command.
    let result = app.execute_command("session rename", &args);
    assert!(result);
    let has_args = app
        .transcript
        .iter()
        .any(|e| matches!(e, TranscriptEntry::SystemMessage(m) if m.contains("my-session")));
    assert!(has_args, "args should appear in the echo message");
}

#[test]
fn app_state_dirty_flag() {
    let mut app = AppState::new();
    // new() sets dirty = true
    assert!(app.dirty);

    // Simulate render loop clearing the flag.
    app.dirty = false;
    assert!(!app.dirty);

    // Any mutation re-sets it.
    app.push_user_message("hi".to_owned());
    assert!(app.dirty);

    app.dirty = false;
    app.start_streaming();
    assert!(app.dirty);

    app.dirty = false;
    app.push_token("tok");
    assert!(app.dirty);

    app.dirty = false;
    app.finalize_streaming();
    assert!(app.dirty);

    app.dirty = false;
    app.scroll_up(1);
    assert!(app.dirty);

    app.dirty = false;
    app.scroll_to_bottom();
    assert!(app.dirty);
}

#[test]
fn register_plugin_command_uses_plugin_source() {
    let mut app = AppState::new();
    app.register_plugin_command("my-plugin", "/my-cmd", "My command");
    let cmd = app.command_registry.resolve("/my-cmd").unwrap();
    assert_eq!(
        cmd.source,
        CommandSource::Plugin("my-plugin".to_owned())
    );
}

#[test]
fn plugin_session_start_is_noop() {
    let mut app = AppState::new();
    let before_count = app.command_registry.list().len();
    app.plugin_session_start("my-plugin");
    // No side effects.
    assert_eq!(app.command_registry.list().len(), before_count);
}

#[test]
fn plugin_session_end_removes_commands() {
    let mut app = AppState::new();
    app.register_plugin_command("my-plugin", "/cmd1", "Command 1");
    app.register_plugin_command("my-plugin", "/cmd2", "Command 2");
    let before = app.command_registry.list().len();
    app.plugin_session_end("my-plugin");
    assert_eq!(app.command_registry.list().len(), before - 2);
    assert!(app.command_registry.resolve("/cmd1").is_none());
    assert!(app.command_registry.resolve("/cmd2").is_none());
}

fn system_messages(app: &AppState) -> Vec<String> {
    app.transcript
        .iter()
        .filter_map(|e| match e {
            TranscriptEntry::SystemMessage(m) => Some(m.clone()),
            _ => None,
        })
        .collect()
}

#[test]
fn execute_command_reports_exactly() {
    let mut app = AppState::new();
    assert!(app.execute_command("//connect", &[]));
    assert_eq!(system_messages(&app), vec!["/connect", "Executed: connect"]);

    let mut app = AppState::new();
    let args = vec!["rename".to_owned(), "foo".to_owned(), "bar".to_owned()];
    assert!(app.execute_command("session", &args));
    assert_eq!(
        system_messages(&app),
        vec!["/session rename foo bar", "Command /session rename is not yet implemented"]
    );

    let mut app = AppState::new();
    assert!(!app.execute_command("conect", &[]));
    assert_eq!(system_messages(&app), vec!["Unknown command: /conect. Did you mean: /connect?"]);

    let mut app = AppState::new();
    assert!(!app.execute_command("zzz", &["x".to_owned()]));
    assert_eq!(system_messages(&app), vec!["Unknown command: /zzz"]);
}

#[test]
fn push_token_starts_a_reply_and_follows_the_bottom() {
    let mut app = AppState::new();
    app.push_user_message("q".to_owned());
    app.push_token("a");
    app.push_token("b");
    assert!(app.streaming);
    assert_eq!(app.transcript.len(), 2);
    match &app.transcript[1] {
        TranscriptEntry::Streaming(m) => {
            assert_eq!(m.content, "ab");
            assert_eq!(m.token_count, 2);
        }
        other => panic!("expected a streaming reply, got {other:?}"),
    }
    assert_eq!(app.scroll_offset, 2);
    app.scroll_up(5);
    app.push_token("c");
    assert_eq!(app.scroll_offset, 0);
    app.scroll_down(3);
    assert!(app.auto_scroll);
    app.finalize_streaming();
    assert_eq!(app.transcript[1], TranscriptEntry::AssistantMessage("abc".to_owned()));
    app.finalize_streaming();
    assert_eq!(app.transcript.len(), 2);
}

#[test]
fn update_tool_call_ignores_other_entries() {
    let mut app = AppState::new();
    app.push_router_event("rerouted".to_owned());
    app.dirty = false;
    app.update_tool_call(0, ToolCallStatus::Failed, None, None, None, None);
    app.update_tool_call(7, ToolCallStatus::Failed, None, None, None, None);
    assert_eq!(app.transcript[0], TranscriptEntry::RouterEvent("rerouted".to_owned()));
    assert!(!app.dirty);
}

#[test]
fn plugin_commands_come_and_go() {
    let mut app = AppState::new();
    app.register_plugin_command("p", "/a", "A");
    app.register_plugin_command("q", "/b", "B");
    assert_eq!(app.command_registry.list().len(), 12);
    app.remove_plugin_commands("p");
    assert!(app.command_registry.resolve("/a").is_none());
    assert!(app.command_registry.resolve("/b").is_some());
    assert_eq!(app.command_registry.list().len(), 11);
}

#[test]
fn slash_completions_strip_one_slash() {
    let app = AppState::new();
    let all = app.slash_completions("/");
    assert_eq!(all.len(), 10);
    let s = app.slash_completions("/rollb");
    assert_eq!(s.len(), 1);
    assert_eq!(s[0].name, "/rollback");
    assert_eq!(s[0].description, "Restore prior checkpoint");
    assert_eq!(s[0].source, "[builtin]");
}

#[test]
fn toasts_mark_the_screen_dirty() {
    let mut app = AppState::default();
    app.dirty = false;
    app.toast(ucode_tui::toast::ToastLevel::Warning, "careful");
    assert!(app.dirty);
    app.toast_with_body(ucode_tui::toast::ToastLevel::Error, "failed", "details");
    assert_eq!(app.toasts.len(), 2);
    assert_eq!(app.focus, FocusTarget::Input);
}

#[test]
fn dispatch_action_view_and_prompt() {
    let mut app = AppState::new();
    let mut input = InputBoxState::new();
    for i in 0..30 {
        app.push_system_message(format!("line {i}"));
    }
    assert_eq!(dispatch_action(Action::Exit, &mut app, &mut input, 24), Some(true));

    app.scroll_offset = 20;
    assert_eq!(dispatch_action(Action::ScrollUp, &mut app, &mut input, 24), Some(false));
    assert_eq!(app.scroll_offset, 19);
    assert!(!app.auto_scroll);
    // A 24-row terminal has a 20-row viewport: half a page is 10 rows.
    dispatch_action(Action::PageUp, &mut app, &mut input, 24);
    assert_eq!(app.scroll_offset, 9);
    dispatch_action(Action::HalfPageDown, &mut app, &mut input, 24);
    assert_eq!(app.scroll_offset, 19);
    // A tiny terminal still pages by one row.
    dispatch_action(Action::PageDown, &mut app, &mut input, 3);
    assert_eq!(app.scroll_offset, 20);
    dispatch_action(Action::ScrollToTop, &mut app, &mut input, 24);
    assert_eq!(app.scroll_offset, 0);
    assert!(!app.auto_scroll);
    dispatch_action(Action::ScrollToBottom, &mut app, &mut input, 24);
    assert_eq!(app.scroll_offset, app.transcript.len());
    assert!(app.auto_scroll);

    input.insert_char('a');
    dispatch_action(Action::NewlineInInput, &mut app, &mut input, 24);
    assert_eq!(input.content, "a\n");
    assert_eq!(input.cursor_col, 0);

    input.autocomplete.show(vec![AutocompleteEntry::new("help", "Show help", "builtin")]);
    dispatch_action(Action::Dismiss, &mut app, &mut input, 24);
    assert!(!input.autocomplete.visible);
    assert_eq!(input.content, "a\n");
    dispatch_action(Action::Dismiss, &mut app, &mut input, 24);
    assert_eq!(input.content, "");

    app.focus = FocusTarget::Transcript;
    dispatch_action(Action::EnterNormalMode, &mut app, &mut input, 24);
    assert_eq!(app.keybinds.mode, InputMode::Normal);
    assert_eq!(app.focus, FocusTarget::Transcript);
    dispatch_action(Action::EnterInsertMode, &mut app, &mut input, 24);
    assert_eq!(app.keybinds.mode, InputMode::Insert);
    assert_eq!(app.focus, FocusTarget::Input);

    let before = app.scroll_offset;
    assert_eq!(dispatch_action(Action::OpenPalette, &mut app, &mut input, 24), None);
    assert_eq!(app.scroll_offset, before);
}

#[test]
fn dispatch_accept_autocomplete() {
    let mut app = AppState::new();
    let mut input = InputBoxState::new();
    for c in "/he".chars() {
        input.insert_char(c);
    }
    // No completion showing: Tab is left to the caller (agent cycling).
    assert_eq!(dispatch_action(Action::AcceptAutocomplete, &mut app, &mut input, 24), None);
    assert_eq!(input.content, "/he");

    input.autocomplete.show(vec![AutocompleteEntry::new("/help", "Show help", "builtin")]);
    assert_eq!(
        dispatch_action(Action::AcceptAutocomplete, &mut app, &mut input, 24),
        Some(false)
    );
    assert_eq!(input.content, "/help ");
    assert_eq!(input.cursor_pos, 6);
    assert_eq!(input.cursor_col, 6);
    assert!(!input.autocomplete.visible);

    let mut input = InputBoxState::new();
    for c in "@re".chars() {
        input.insert_char(c);
    }
    input.autocomplete.show(vec![AutocompleteEntry::new("planner", "agent", "agent")]);
    dispatch_action(Action::AcceptAutocomplete, &mut app, &mut input, 24);
    assert_eq!(input.content, "@planner ");
    assert_eq!(input.cursor_pos, 9);
}
