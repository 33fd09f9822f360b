//! Key binding presets, resolution, modes and overrides.

use ucode_tui::keybinds::{
    bindings_for_preset, default_emacs_bindings, default_vim_bindings, default_vscode_bindings,
    Action, InputMode, KeyCode, KeyCombo, KeyEvent, KeyEventKind, KeyModifiers, KeybindPreset,
    KeybindResolver,
};

fn press(code: KeyCode, modifiers: u8) -> KeyEvent {
    KeyEvent { code, modifiers, kind: KeyEventKind::Press }
}

fn release(code: KeyCode, modifiers: u8) -> KeyEvent {
    KeyEvent { code, modifiers, kind: KeyEventKind::Release }
}

#[test]
fn vscode_palette_binding() {
    let bindings = default_vscode_bindings();
    let combo = KeyCombo::new(KeyCode::Char('p'), KeyModifiers::CONTROL);
    assert_eq!(bindings.get(&combo), Some(Action::OpenPalette));
}

#[test]
fn vim_palette_binding() {
    // `:` maps to OpenPalette in vim preset (normal mode)
    let resolver = KeybindResolver::new(KeybindPreset::Vim);
    assert_eq!(resolver.mode, InputMode::Normal);
    let ev = press(KeyCode::Char(':'), KeyModifiers::NONE);
    assert_eq!(resolver.resolve(&ev), Some(Action::OpenPalette));
}

#[test]
fn emacs_palette_binding() {
    // Alt+x maps to OpenPalette in emacs preset
    let bindings = default_emacs_bindings();
    let combo = KeyCombo::new(KeyCode::Char('x'), KeyModifiers::ALT);
    assert_eq!(bindings.get(&combo), Some(Action::OpenPalette));
}

#[test]
fn vscode_is_default_preset() {
    assert_eq!(KeybindPreset::default(), KeybindPreset::Vscode);
}

#[test]
fn resolver_filters_key_release() {
    let resolver = KeybindResolver::new(KeybindPreset::Vscode);
    let ev = release(KeyCode::Char('p'), KeyModifiers::CONTROL);
    assert_eq!(resolver.resolve(&ev), None);
}

#[test]
fn vim_j_scrolls_down() {
    let resolver = KeybindResolver::new(KeybindPreset::Vim);
    // Default mode is Normal — j should scroll down.
    let ev = press(KeyCode::Char('j'), KeyModifiers::NONE);
    assert_eq!(resolver.resolve(&ev), Some(Action::ScrollDown));
}

#[test]
fn emacs_ctrl_n_scrolls_down() {
    let resolver = KeybindResolver::new(KeybindPreset::Emacs);
    let ev = press(KeyCode::Char('n'), KeyModifiers::CONTROL);
    assert_eq!(resolver.resolve(&ev), Some(Action::ScrollDown));
}

#[test]
fn all_presets_have_exit() {
    for preset in [
        KeybindPreset::Vscode,
        KeybindPreset::Vim,
        KeybindPreset::Emacs,
    ] {
        let bindings = bindings_for_preset(preset);
        let has_exit = bindings.values().iter().any(|&a| a == Action::Exit);
        assert!(has_exit, "{preset:?} has no Exit binding");
    }
}

#[test]
fn all_presets_have_ctrl_q_exit() {
    // Ctrl+Q is the universal exit binding across all presets.
    let ctrl_q = KeyCombo::new(KeyCode::Char('q'), KeyModifiers::CONTROL);
    for preset in [
        KeybindPreset::Vscode,
        KeybindPreset::Vim,
        KeybindPreset::Emacs,
    ] {
        let bindings = bindings_for_preset(preset);
        assert_eq!(
            bindings.get(&ctrl_q),
            Some(Action::Exit),
            "{preset:?} does not map Ctrl+Q to Exit"
        );
    }
}

#[test]
fn vim_has_both_q_and_ctrl_q_exit() {
    let bindings = default_vim_bindings();
    let bare_q = KeyCombo::new(KeyCode::Char('q'), KeyModifiers::NONE);
    let ctrl_q = KeyCombo::new(KeyCode::Char('q'), KeyModifiers::CONTROL);
    assert_eq!(bindings.get(&bare_q), Some(Action::Exit));
    assert_eq!(bindings.get(&ctrl_q), Some(Action::Exit));
}

#[test]
fn vscode_ctrl_d_no_longer_exits() {
    // Ctrl+D was removed from vscode; it now falls through to readline delete-forward.
    let bindings = default_vscode_bindings();
    let ctrl_d = KeyCombo::new(KeyCode::Char('d'), KeyModifiers::CONTROL);
    assert_ne!(bindings.get(&ctrl_d), Some(Action::Exit));
}

#[test]
fn emacs_ctrl_d_no_longer_exits() {
    // Ctrl+D was removed from emacs; it now falls through to readline delete-forward.
    let bindings = default_emacs_bindings();
    let ctrl_d = KeyCombo::new(KeyCode::Char('d'), KeyModifiers::CONTROL);
    assert_ne!(bindings.get(&ctrl_d), Some(Action::Exit));
}

#[test]
fn all_presets_have_send_message() {
    // Every preset must bind Enter (no modifiers) to SendMessage.
    // For vim, SendMessage is suppressed in Normal mode but the binding
    // still exists in the map — we test the map directly here.
    for preset in [
        KeybindPreset::Vscode,
        KeybindPreset::Vim,
        KeybindPreset::Emacs,
    ] {
        let bindings = bindings_for_preset(preset);
        let combo = KeyCombo::new(KeyCode::Enter, KeyModifiers::NONE);
        assert_eq!(
            bindings.get(&combo),
            Some(Action::SendMessage),
            "{preset:?} does not map Enter to SendMessage"
        );
    }
}

#[test]
fn all_presets_have_toggle_theme() {
    for preset in [
        KeybindPreset::Vscode,
        KeybindPreset::Vim,
        KeybindPreset::Emacs,
    ] {
        let map = bindings_for_preset(preset);
        assert!(
            map.values().iter().any(|a| *a == Action::ToggleTheme),
            "{preset:?} missing ToggleTheme"
        );
    }
}

#[test]
fn all_presets_have_toggle_density() {
    for preset in [
        KeybindPreset::Vscode,
        KeybindPreset::Vim,
        KeybindPreset::Emacs,
    ] {
        let map = bindings_for_preset(preset);
        assert!(
            map.values().iter().any(|a| *a == Action::ToggleDensity),
            "{preset:?} missing ToggleDensity"
        );
    }
}

#[test]
fn override_binding_replaces_existing() {
    let mut resolver = KeybindResolver::new(KeybindPreset::Vscode);
    // Ctrl+P is OpenPalette by default in vscode preset
    let combo = KeyCombo::new(KeyCode::Char('p'), KeyModifiers::CONTROL);
    let key = KeyEvent::new(KeyCode::Char('p'), KeyModifiers::CONTROL);
    assert_eq!(resolver.resolve(&key), Some(Action::OpenPalette));

    resolver.override_binding(combo, Action::SearchTranscript);
    assert_eq!(resolver.resolve(&key), Some(Action::SearchTranscript));
}

#[test]
fn override_binding_adds_new() {
    let mut resolver = KeybindResolver::new(KeybindPreset::Vscode);
    // Ctrl+T is not bound by default
    let combo = KeyCombo::new(KeyCode::Char('t'), KeyModifiers::CONTROL);
    let key = KeyEvent::new(KeyCode::Char('t'), KeyModifiers::CONTROL);
    assert_eq!(resolver.resolve(&key), None);

    resolver.override_binding(combo, Action::ToggleTheme);
    assert_eq!(resolver.resolve(&key), Some(Action::ToggleTheme));
}

#[test]
fn remove_binding_removes_existing() {
    let mut resolver = KeybindResolver::new(KeybindPreset::Vscode);
    let combo = KeyCombo::new(KeyCode::Char('p'), KeyModifiers::CONTROL);
    let key = KeyEvent::new(KeyCode::Char('p'), KeyModifiers::CONTROL);
    assert_eq!(resolver.resolve(&key), Some(Action::OpenPalette));

    let removed = resolver.remove_binding(&combo);
    assert_eq!(removed, Some(Action::OpenPalette));
    assert_eq!(resolver.resolve(&key), None);
}

#[test]
fn remove_binding_returns_none_for_unbound() {
    let mut resolver = KeybindResolver::new(KeybindPreset::Vscode);
    let combo = KeyCombo::new(KeyCode::Char('t'), KeyModifiers::CONTROL);
    assert_eq!(resolver.remove_binding(&combo), None);
}

