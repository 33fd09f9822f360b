//! Editing, navigation and bookkeeping state behind a terminal chat client:
//! the prompt editor, command registry, key bindings, the session state,
//! toasts, tabs, panels, sidebar data, transcript wrapping, sizing and
//! highlighting, the title bar, clipboard framing and fallback, sign-in flow
//! choice and dates.

pub mod text;
pub mod input;
pub mod keybinds;
pub mod command_registry;
pub mod app_state;
pub mod toast;
pub mod tab_bar;
pub mod master_detail;
pub mod transcript;
pub mod sidebar;
pub mod title_bar;
pub mod clipboard;
pub mod connect;
pub mod date;
