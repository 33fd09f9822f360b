# ucode_tui

The state and decision logic behind a terminal chat client, written in
Verus: the functions in `src/` carry contracts that Verus proves, except the
few `external_body` wrappers around std and unicode-width calls (in `text.rs`,
`toast.rs`), whose contracts are trusted and state only what those sources
document.

- `src/text.rs`: UTF-8 byte offsets, display widths, word characters, case
  mappings and string/character conversions shared by the rest.
- `src/input.rs`: the prompt editor (readline-style motion, kill and yank,
  case commands, transposition, line navigation) and its autocomplete list.
- `src/keybinds.rs`: the VS Code, Vim and Emacs binding presets, the binding
  map, and key resolution with Vim mode suppression.
- `src/command_registry.rs`: slash commands: built-ins, lookup, search,
  suggestions and plugin commands.
- `src/app_state.rs`: the session: transcript, streaming replies, scrolling,
  the redraw flag, command execution and toasts.
- `src/transcript.rs`: transcript entries, word wrapping, entry heights and
  column-range highlighting.
- `src/toast.rs`, `src/tab_bar.rs`, `src/master_detail.rs`,
  `src/sidebar.rs`, `src/title_bar.rs`: the state of the smaller panels.
- `src/clipboard.rs`: Base64 and the OSC 52 sequence, tool choice and
  arguments, and the fallback chain between OSC 52, a tool and a file.
- `src/connect.rs`, `src/date.rs`: sign-in flow choice and calendar dates.

`app/` holds what touches the terminal, processes, files and the
environment, the serde and error-trait forms of library types, the
conversion of crossterm key events, and the floating-point rates. `tests/`
exercises the library from outside.
