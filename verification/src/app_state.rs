//! The chat session's state: the transcript and its streaming reply, scroll
//! position, focus and redraw flag, key bindings, commands and toasts, with
//! the operations that change them. Overlay, layout and theme state are
//! kept by the caller.

use vstd::prelude::*;

use std::time::Instant;

use crate::command_registry::{
    builtin_table, from_plugin, is_first_named, no_named, refs_match, search_result, suggested,
    without_plugin,
    CommandCategory, CommandDef, CommandRegistry, CommandSource,
};
use crate::input::{completion_text, AutocompleteEntry, InputBoxState};
use crate::keybinds::{preset_map, Action, InputMode, KeybindPreset, KeybindResolver};
use crate::text::{byte_len, chars_of, push_str_chars, str_cols, string_of, trim_leading, trim_leading_chars};
use crate::toast::{dismiss_ms, ToastLevel, ToastState};
use crate::transcript::{FocusTarget, StreamingMessage, ToolCallStatus, TranscriptEntry};

verus! {

/// The session state behind the chat screen.
#[derive(Debug, Clone)]
pub struct AppState {
    pub keybinds: KeybindResolver,
    pub transcript: Vec<TranscriptEntry>,
    pub scroll_offset: usize,
    /// When true the view is pinned to the bottom of the transcript.
    pub auto_scroll: bool,
    pub focus: FocusTarget,
    /// Set whenever state changes; cleared by the render loop after drawing.
    pub dirty: bool,
    /// True while a streaming response is in progress.
    pub streaming: bool,
    pub session_title: String,
    pub session_id: String,
    pub parent_title: Option<String>,
    /// Detected multiplexer name (e.g. "tmux", "zellij", "screen").
    pub multiplexer: Option<String>,
    pub command_registry: CommandRegistry,
    /// Time of the last Ctrl+C press, for double-Ctrl+C exit detection.
    pub last_ctrl_c: Option<Instant>,
    /// Hint shown after the first Ctrl+C.
    pub ctrl_c_hint: Option<String>,
    pub toasts: ToastState,
}

/// The fields that none of the operations here change are equal in `a` and `b`.
pub open spec fn same_session(a: AppState, b: AppState) -> bool {
    &&& a.keybinds == b.keybinds
    &&& a.focus == b.focus
    &&& a.session_title == b.session_title
    &&& a.session_id == b.session_id
    &&& a.parent_title == b.parent_title
    &&& a.multiplexer == b.multiplexer
    &&& a.last_ctrl_c == b.last_ctrl_c
    &&& a.ctrl_c_hint == b.ctrl_c_hint
}

/// Only the transcript and the redraw flag may differ between `a` and `b`.
pub open spec fn only_log_changed(a: AppState, b: AppState) -> bool {
    &&& same_session(a, b)
    &&& a.command_registry == b.command_registry
    &&& a.toasts == b.toasts
    &&& a.scroll_offset == b.scroll_offset
    &&& a.auto_scroll == b.auto_scroll
    &&& a.streaming == b.streaming
}

/// Only the scroll position and the redraw flag may differ between `a` and `b`.
pub open spec fn only_scroll_changed(a: AppState, b: AppState) -> bool {
    &&& same_session(a, b)
    &&& a.command_registry == b.command_registry
    &&& a.toasts == b.toasts
    &&& a.transcript == b.transcript
    &&& a.streaming == b.streaming
}

/// `after` is `before` with `e` appended.
pub open spec fn appended(before: Seq<TranscriptEntry>, after: Seq<TranscriptEntry>, n: int) -> bool {
    &&& after.len() == before.len() + n
    &&& after.take(before.len() as int) == before
}

/// A system message with text `m`.
pub open spec fn is_system_message(e: TranscriptEntry, m: Seq<char>) -> bool {
    e matches TranscriptEntry::SystemMessage(s) && s@ == m
}

// ---------------------------------------------------------------------------
// Slash commands
// ---------------------------------------------------------------------------

/// `words` with `sep` between each two.
pub open spec fn join_sep(words: Seq<Seq<char>>, sep: Seq<char>) -> Seq<char>
    decreases words.len(),
{
    if words.len() == 0 {
        Seq::empty()
    } else if words.len() == 1 {
        words[0]
    } else {
        join_sep(words.drop_last(), sep) + sep + words.last()
    }
}

/// The arguments as character sequences.
pub open spec fn arg_views(args: Seq<String>) -> Seq<Seq<char>> {
    args.map_values(|a: String| a@)
}

/// The lookup for a command name taking the first `n` arguments into the
/// name: `/name arg0 .. arg(n-1)`.
pub open spec fn candidate(bare: Seq<char>, args: Seq<Seq<char>>, n: int) -> Seq<char> {
    if n <= 0 {
        seq!['/'] + bare
    } else {
        seq!['/'] + bare + seq![' '] + join_sep(args.take(n), seq![' '])
    }
}

/// The most arguments (at most `k`) whose lookup names a registered command.
pub open spec fn matched_args(
    reg: Seq<CommandDef>,
    bare: Seq<char>,
    args: Seq<Seq<char>>,
    k: nat,
) -> Option<nat>
    decreases k,
{
    if !no_named(reg, candidate(bare, args, k as int)) {
        Some(k)
    } else if k == 0 {
        None
    } else {
        matched_args(reg, bare, args, (k - 1) as nat)
    }
}

/// The echo of a run command: its name and the remaining arguments.
pub open spec fn echo_text(cmd_name: Seq<char>, rest: Seq<Seq<char>>) -> Seq<char> {
    seq!['/'] + trim_leading(cmd_name, '/') + if rest.len() == 0 {
        Seq::<char>::empty()
    } else {
        seq![' '] + join_sep(rest, seq![' '])
    }
}

/// What running `cmd` reports.
pub open spec fn outcome_text(cmd: CommandDef) -> Seq<char> {
    if cmd.action is Some {
        "Executed: "@ + trim_leading(cmd.name@, '/')
    } else {
        "Command "@ + cmd.name@ + " is not yet implemented"@
    }
}

/// The report for an unknown command, with the suggested names if any.
pub open spec fn unknown_text(bare: Seq<char>, names: Seq<Seq<char>>) -> Seq<char> {
    if names.len() == 0 {
        "Unknown command: /"@ + bare
    } else {
        "Unknown command: /"@ + bare + ". Did you mean: "@ + join_sep(names, ", "@) + "?"@
    }
}

/// The names of `cs`.
pub open spec fn names_of(cs: Seq<CommandDef>) -> Seq<Seq<char>> {
    cs.map_values(|c: CommandDef| c.name@)
}

proof fn lemma_join_step(ws: Seq<Seq<char>>, from: int, i: int, sep: Seq<char>)
    requires
        0 <= from <= i < ws.len(),
    ensures
        join_sep(ws.subrange(from, i + 1), sep) == if i == from {
            ws[i]
        } else {
            join_sep(ws.subrange(from, i), sep) + sep + ws[i]
        },
{
    assert(ws.subrange(from, i + 1).drop_last() =~= ws.subrange(from, i));
    assert(ws.subrange(from, i + 1).last() == ws[i]);
    if i == from {
        assert(ws.subrange(from, i + 1).len() == 1);
    }
}

/// Append `args[from..to]` joined with `sep`.
fn push_joined_args(out: &mut Vec<char>, args: &[String], from: usize, to: usize, sep: &str)
    requires
        from <= to <= args@.len(),
    ensures
        final(out)@ == old(out)@ + join_sep(arg_views(args@).subrange(from as int, to as int), sep@),
{
    let ghost av = arg_views(args@);
    let ghost o = out@;
    let mut i: usize = from;
    proof {
        assert(av.subrange(from as int, from as int) =~= Seq::<Seq<char>>::empty());
        assert(out@ =~= o + join_sep(av.subrange(from as int, from as int), sep@));
    }
    while i < to
        invariant
            from <= i <= to <= args@.len(),
            av == arg_views(args@),
            out@ == o + join_sep(av.subrange(from as int, i as int), sep@),
        decreases to - i,
    {
        let ghost before = out@;
        proof {
            lemma_join_step(av, from as int, i as int, sep@);
        }
        if i > from {
            push_str_chars(out, sep);
        }
        push_str_chars(out, args[i].as_str());
        proof {
            assert(av[i as int] == args@[i as int]@);
            if i > from {
                assert(out@ =~= o + (join_sep(av.subrange(from as int, i as int), sep@) + sep@
                    + av[i as int]));
            } else {
                assert(out@ =~= o + av[i as int]);
            }
        }
        i = i + 1;
    }
}

/// Append the names of the commands `cs` (the commands of `f`) joined with `sep`.
fn push_joined_names(out: &mut Vec<char>, cs: &Vec<&CommandDef>, Ghost(f): Ghost<Seq<CommandDef>>, sep: &str)
    requires
        refs_match(cs@, f),
    ensures
        final(out)@ == old(out)@ + join_sep(names_of(f), sep@),
{
    let ghost nv = names_of(f);
    let ghost o = out@;
    let n = cs.len();
    let mut i: usize = 0;
    proof {
        assert(nv.subrange(0, 0) =~= Seq::<Seq<char>>::empty());
        assert(out@ =~= o + join_sep(nv.subrange(0, 0), sep@));
    }
    while i < n
        invariant
            n == cs@.len(),
            refs_match(cs@, f),
            nv == names_of(f),
            i <= n,
            out@ == o + join_sep(nv.subrange(0, i as int), sep@),
        decreases n - i,
    {
        proof {
            lemma_join_step(nv, 0, i as int, sep@);
        }
        if i > 0 {
            push_str_chars(out, sep);
        }
        push_str_chars(out, cs[i].name.as_str());
        proof {
            assert(nv[i as int] == f[i as int].name@);
            if i > 0 {
                assert(out@ =~= o + (join_sep(nv.subrange(0, i as int), sep@) + sep@ + nv[i as int]));
            } else {
                assert(out@ =~= o + nv[i as int]);
            }
        }
        i = i + 1;
    }
    proof {
        assert(nv.subrange(0, n as int) =~= nv);
    }
}

/// What running the command `bare` with `args` against `reg` does to the
/// transcript `t` (giving `u`), and whether it `found` a command: the echo
/// and the outcome of the command the most arguments name, or the report of
/// an unknown command.
pub open spec fn command_report(
    reg: Seq<CommandDef>,
    bare: Seq<char>,
    av: Seq<Seq<char>>,
    t: Seq<TranscriptEntry>,
    u: Seq<TranscriptEntry>,
    found: bool,
) -> bool {
    match matched_args(reg, bare, av, av.len()) {
        Some(n) => {
            let c = candidate(bare, av, n as int);
            let i = choose|i: int| is_first_named(reg, c, i);
            &&& found
            &&& appended(t, u, 2)
            &&& is_first_named(reg, c, i)
            &&& is_system_message(u[t.len() as int], echo_text(reg[i].name@, av.skip(n as int)))
            &&& is_system_message(u[t.len() + 1int], outcome_text(reg[i]))
        },
        None => {
            &&& !found
            &&& appended(t, u, 1)
            &&& is_system_message(u[t.len() as int], unknown_text(bare, names_of(suggested(reg, bare))))
        },
    }
}

proof fn lemma_first_named_unique(s: Seq<CommandDef>, name: Seq<char>, a: int, b: int)
    requires
        is_first_named(s, name, a),
        is_first_named(s, name, b),
    ensures
        a == b,
{
}

/// The lookup string `candidate(bare, args, k)`.
fn candidate_string(bare: &Vec<char>, args: &[String], k: usize) -> (s: String)
    requires
        k <= args@.len(),
    ensures
        s@ == candidate(bare@, arg_views(args@), k as int),
{
    let mut out: Vec<char> = Vec::new();
    out.push('/');
    let mut i: usize = 0;
    while i < bare.len()
        invariant
            i <= bare@.len(),
            out@ == seq!['/'] + bare@.subrange(0, i as int),
        decreases bare@.len() - i,
    {
        out.push(bare[i]);
        proof {
            assert(bare@.subrange(0, i + 1) =~= bare@.subrange(0, i as int).push(bare@[i as int]));
        }
        i = i + 1;
    }
    proof {
        assert(bare@.subrange(0, bare@.len() as int) =~= bare@);
    }
    if k > 0 {
        out.push(' ');
        push_joined_args(&mut out, args, 0, k, " ");
        proof {
            reveal_strlit(" ");
            assert(arg_views(args@).subrange(0, k as int) =~= arg_views(args@).take(k as int));
            assert(" "@ =~= seq![' ']);
            assert(out@ =~= candidate(bare@, arg_views(args@), k as int));
        }
    }
    string_of(out.as_slice())
}

impl AppState {
    /// The key bindings and toasts are well formed.
    pub open spec fn wf(&self) -> bool {
        self.keybinds.wf() && self.toasts.wf()
    }

    /// A fresh session: VS Code bindings in normal mode, the built-in
    /// commands, an empty transcript pinned to the bottom, focus on the
    /// input, and a pending redraw. The multiplexer is left unset.
    pub fn new() -> (s: Self)
        ensures
            s.wf(),
            s.keybinds.bindings_view() == preset_map(KeybindPreset::Vscode),
            s.keybinds.preset == KeybindPreset::Vscode,
            s.keybinds.mode == InputMode::Normal,
            s.transcript@.len() == 0,
            s.scroll_offset == 0,
            s.auto_scroll,
            s.focus == FocusTarget::Input,
            s.dirty,
            !s.streaming,
            s.session_title@.len() == 0,
            s.session_id@.len() == 0,
            s.parent_title is None,
            s.multiplexer is None,
            builtin_table(s.command_registry@),
            s.last_ctrl_c is None,
            s.ctrl_c_hint is None,
            s.toasts@.len() == 0,
            s.toasts.next() == 0,
    {
        AppState {
            keybinds: KeybindResolver::new(KeybindPreset::Vscode),
            transcript: Vec::new(),
            scroll_offset: 0,
            auto_scroll: true,
            focus: FocusTarget::Input,
            dirty: true,
            streaming: false,
            session_title: String::new(),
            session_id: String::new(),
            parent_title: None,
            multiplexer: None,
            command_registry: CommandRegistry::with_builtins(),
            last_ctrl_c: None,
            ctrl_c_hint: None,
            toasts: ToastState::new(),
        }
    }

    /// Request a redraw.
    pub fn mark_dirty(&mut self)
        ensures
            final(self).dirty,
            only_log_changed(*old(self), *final(self)),
            final(self).transcript == old(self).transcript,
    {
        self.dirty = true;
    }

    /// Autocomplete entries for slash-command input: the commands that match
    /// the input without its leading `/` (all of them for a bare `/`), each
    /// with its name, description and source badge.
    pub fn slash_completions(&self, input: &str) -> (r: Vec<AutocompleteEntry>)
        ensures
            ({
                let q = if input@.len() > 0 && input@[0] == '/' {
                    input@.drop_first()
                } else {
                    input@
                };
                let found = search_result(self.command_registry@, q);
                &&& r@.len() == found.len()
                &&& forall|i: int|
                    0 <= i < r@.len() ==> {
                        &&& r@[i].name@ == found[i].name@
                        &&& r@[i].description@ == found[i].description@
                        &&& r@[i].source@ == found[i].source.badge_text()
                    }
            }),
    {
        let chars = chars_of(input);
        let q = if chars.len() > 0 && chars[0] == '/' {
            let mut rest: Vec<char> = Vec::new();
            let mut i: usize = 1;
            while i < chars.len()
                invariant
                    1 <= i <= chars@.len(),
                    rest@ == chars@.subrange(1, i as int),
                decreases chars@.len() - i,
            {
                rest.push(chars[i]);
                proof {
                    assert(chars@.subrange(1, i + 1) =~= chars@.subrange(1, i as int).push(
                        chars@[i as int],
                    ));
                }
                i = i + 1;
            }
            proof {
                assert(chars@.subrange(1, chars@.len() as int) =~= chars@.drop_first());
            }
            string_of(rest.as_slice())
        } else {
            string_of(chars.as_slice())
        };
        let found = self.command_registry.search(q.as_str());
        let ghost f = search_result(self.command_registry@, q@);
        let mut out: Vec<AutocompleteEntry> = Vec::new();
        let mut i: usize = 0;
        while i < found.len()
            invariant
                refs_match(found@, f),
                i <= found@.len(),
                out@.len() == i,
                forall|k: int|
                    0 <= k < i ==> {
                        &&& out@[k].name@ == f[k].name@
                        &&& out@[k].description@ == f[k].description@
                        &&& out@[k].source@ == f[k].source.badge_text()
                    },
            decreases found@.len() - i,
        {
            let cmd = found[i];
            out.push(
                AutocompleteEntry::new(
                    cmd.name.as_str(),
                    cmd.description.as_str(),
                    cmd.source.badge(),
                ),
            );
            i = i + 1;
        }
        out
    }

    /// Start a streaming reply: append an empty one and enter streaming mode.
    pub fn start_streaming(&mut self)
        ensures
            appended(old(self).transcript@, final(self).transcript@, 1),
            final(self).transcript@.last() matches TranscriptEntry::Streaming(m) && m.content@.len()
                == 0 && m.token_count == 0 && !m.is_complete,
            final(self).streaming,
            final(self).dirty,
            same_session(*old(self), *final(self)),
            final(self).command_registry == old(self).command_registry,
            final(self).toasts == old(self).toasts,
            final(self).scroll_offset == old(self).scroll_offset,
            final(self).auto_scroll == old(self).auto_scroll,
    {
        let ghost t0 = self.transcript@;
        self.transcript.push(TranscriptEntry::Streaming(StreamingMessage::new()));
        proof {
            assert(self.transcript@.take(t0.len() as int) =~= t0);
        }
        self.streaming = true;
        self.dirty = true;
    }

    /// Append a token to the streaming reply at the end of the transcript,
    /// starting one (and streaming mode) when the last entry is not one; when
    /// pinned to the bottom the scroll offset moves on by one (saturating).
    pub fn push_token(&mut self, token: &str)
        requires
            old(self).transcript@.len() > 0 ==> (old(self).transcript@.last() matches TranscriptEntry::Streaming(
                m,
            ) ==> m.token_count < usize::MAX),
        ensures
            ({
                let t = old(self).transcript@;
                let u = final(self).transcript@;
                if t.len() > 0 && t.last() is Streaming {
                    &&& u.len() == t.len()
                    &&& u.take(t.len() - 1) == t.take(t.len() - 1)
                    &&& t.last() matches TranscriptEntry::Streaming(m) && u.last() matches TranscriptEntry::Streaming(
                        m2,
                    ) && m2.content@ == m.content@ + token@ && m2.token_count == m.token_count + 1
                        && m2.is_complete == m.is_complete && m2.started_at == m.started_at
                    &&& final(self).streaming == old(self).streaming
                } else {
                    &&& appended(t, u, 1)
                    &&& u.last() matches TranscriptEntry::Streaming(m2) && m2.content@ == token@
                        && m2.token_count == 1 && !m2.is_complete
                    &&& final(self).streaming
                }
            }),
            final(self).scroll_offset == if old(self).auto_scroll {
                if old(self).scroll_offset < usize::MAX {
                    old(self).scroll_offset + 1
                } else {
                    usize::MAX as int
                }
            } else {
                old(self).scroll_offset as int
            },
            final(self).dirty,
            same_session(*old(self), *final(self)),
            final(self).command_registry == old(self).command_registry,
            final(self).toasts == old(self).toasts,
            final(self).auto_scroll == old(self).auto_scroll,
    {
        let ghost t0 = self.transcript@;
        match self.transcript.pop() {
            Some(TranscriptEntry::Streaming(mut msg)) => {
                msg.push_token(token);
                self.transcript.push(TranscriptEntry::Streaming(msg));
                proof {
                    assert(self.transcript@.take(t0.len() - 1) =~= t0.take(t0.len() - 1));
                }
            },
            Some(other) => {
                self.transcript.push(other);
                let mut msg = StreamingMessage::new();
                msg.push_token(token);
                proof {
                    assert(msg.content@ =~= token@);
                }
                self.transcript.push(TranscriptEntry::Streaming(msg));
                self.streaming = true;
                proof {
                    assert(self.transcript@.take(t0.len() as int) =~= t0);
                }
            },
            None => {
                let mut msg = StreamingMessage::new();
                msg.push_token(token);
                proof {
                    assert(msg.content@ =~= token@);
                }
                self.transcript.push(TranscriptEntry::Streaming(msg));
                self.streaming = true;
                proof {
                    assert(self.transcript@.take(t0.len() as int) =~= t0);
                }
            },
        }
        if self.auto_scroll {
            self.scroll_offset = self.scroll_offset.saturating_add(1);
        }
        self.dirty = true;
    }

    /// Turn a streaming reply at the end of the transcript into a completed
    /// assistant message with its content, and leave streaming mode.
    pub fn finalize_streaming(&mut self)
        ensures
            ({
                let t = old(self).transcript@;
                let u = final(self).transcript@;
                if t.len() > 0 && t.last() is Streaming {
                    &&& u.len() == t.len()
                    &&& u.take(t.len() - 1) == t.take(t.len() - 1)
                    &&& t.last() matches TranscriptEntry::Streaming(m) && u.last() matches TranscriptEntry::AssistantMessage(
                        s,
                    ) && s@ == m.content@
                } else {
                    u == t
                }
            }),
            !final(self).streaming,
            final(self).dirty,
            same_session(*old(self), *final(self)),
            final(self).command_registry == old(self).command_registry,
            final(self).toasts == old(self).toasts,
            final(self).scroll_offset == old(self).scroll_offset,
            final(self).auto_scroll == old(self).auto_scroll,
    {
        let ghost t0 = self.transcript@;
        match self.transcript.pop() {
            Some(TranscriptEntry::Streaming(msg)) => {
                let content = msg.content.clone();
                self.transcript.push(TranscriptEntry::AssistantMessage(content));
                proof {
                    assert(self.transcript@.take(t0.len() - 1) =~= t0.take(t0.len() - 1));
                }
            },
            Some(other) => {
                self.transcript.push(other);
                proof {
                    assert(self.transcript@ =~= t0);
                }
            },
            None => {},
        }
        self.streaming = false;
        self.dirty = true;
    }

    /// Append the user's message.
    pub fn push_user_message(&mut self, msg: String)
        ensures
            final(self).transcript@ == old(self).transcript@.push(TranscriptEntry::UserMessage(msg)),
            final(self).dirty,
            only_log_changed(*old(self), *final(self)),
    {
        self.transcript.push(TranscriptEntry::UserMessage(msg));
        self.dirty = true;
    }

    /// Append a running tool call named `name` and return its index.
    pub fn push_tool_call(&mut self, name: String) -> (index: usize)
        ensures
            index == old(self).transcript@.len(),
            final(self).transcript@ == old(self).transcript@.push(
                TranscriptEntry::ToolCall {
                    name,
                    status: ToolCallStatus::Running,
                    duration_ms: None,
                    summary: None,
                    thinking: None,
                    output: None,
                },
            ),
            final(self).dirty,
            only_log_changed(*old(self), *final(self)),
    {
        let index = self.transcript.len();
        self.transcript.push(
            TranscriptEntry::ToolCall {
                name,
                status: ToolCallStatus::Running,
                duration_ms: None,
                summary: None,
                thinking: None,
                output: None,
            },
        );
        self.dirty = true;
        index
    }

    /// Update the tool call at `index` (keeping its name); nothing happens
    /// when there is no tool call there.
    pub fn update_tool_call(
        &mut self,
        index: usize,
        status: ToolCallStatus,
        duration_ms: Option<u64>,
        summary: Option<String>,
        thinking: Option<String>,
        output: Option<String>,
    )
        ensures
            ({
                let t = old(self).transcript@;
                if index < t.len() && t[index as int] is ToolCall {
                    &&& final(self).transcript@ == t.update(
                        index as int,
                        TranscriptEntry::ToolCall {
                            name: t[index as int]->ToolCall_name,
                            status,
                            duration_ms,
                            summary,
                            thinking,
                            output,
                        },
                    )
                    &&& final(self).dirty
                } else {
                    &&& final(self).transcript@ == t
                    &&& final(self).dirty == old(self).dirty
                }
            }),
            only_log_changed(*old(self), *final(self)),
    {
        let ghost t0 = self.transcript@;
        if index < self.transcript.len() {
            let mut entry = TranscriptEntry::SystemMessage(String::new());
            self.transcript.set_and_swap(index, &mut entry);
            match entry {
                TranscriptEntry::ToolCall { name, .. } => {
                    let mut updated = TranscriptEntry::ToolCall {
                        name,
                        status,
                        duration_ms,
                        summary,
                        thinking,
                        output,
                    };
                    self.transcript.set_and_swap(index, &mut updated);
                    proof {
                        assert(self.transcript@ =~= t0.update(
                            index as int,
                            TranscriptEntry::ToolCall {
                                name: t0[index as int]->ToolCall_name,
                                status,
                                duration_ms,
                                summary,
                                thinking,
                                output,
                            },
                        ));
                    }
                    self.dirty = true;
                },
                other => {
                    let mut back = other;
                    self.transcript.set_and_swap(index, &mut back);
                    proof {
                        assert(self.transcript@ =~= old(self).transcript@);
                    }
                },
            }
        }
    }

    /// Append a routing event.
    pub fn push_router_event(&mut self, msg: String)
        ensures
            final(self).transcript@ == old(self).transcript@.push(TranscriptEntry::RouterEvent(msg)),
            final(self).dirty,
            only_log_changed(*old(self), *final(self)),
    {
        self.transcript.push(TranscriptEntry::RouterEvent(msg));
        self.dirty = true;
    }

    /// Append a system message.
    pub fn push_system_message(&mut self, msg: String)
        ensures
            final(self).transcript@ == old(self).transcript@.push(TranscriptEntry::SystemMessage(msg)),
            final(self).dirty,
            only_log_changed(*old(self), *final(self)),
    {
        self.transcript.push(TranscriptEntry::SystemMessage(msg));
        self.dirty = true;
    }

    /// Run a slash command. `name` may start with `/`. The longest lookup
    /// `/name arg0 .. argN` naming a registered command wins, trying from all
    /// arguments down to none; its run is echoed with the remaining
    /// arguments, followed by "Executed: ..." for a command with an action
    /// and "Command ... is not yet implemented" otherwise. An unknown
    /// command is reported with the suggested names, if any. True when a
    /// command was found.
    pub fn execute_command(&mut self, name: &str, args: &[String]) -> (found: bool)
        ensures
            command_report(
                old(self).command_registry@,
                trim_leading(name@, '/'),
                arg_views(args@),
                old(self).transcript@,
                final(self).transcript@,
                found,
            ),
            final(self).dirty,
            only_log_changed(*old(self), *final(self)),
    {
        let ghost reg = self.command_registry@;
        let ghost av = arg_views(args@);
        let ghost t0 = self.transcript@;
        let name_chars = chars_of(name);
        let bare = trim_leading_chars(&name_chars, '/');
        let n = args.len();
        let mut k: usize = n;
        loop
            invariant
                k <= n,
                n == args@.len(),
                av == arg_views(args@),
                reg == self.command_registry@,
                bare@ == trim_leading(name@, '/'),
                matched_args(reg, bare@, av, n as nat) == matched_args(reg, bare@, av, k as nat),
                *self == *old(self),
                t0 == old(self).transcript@,
            ensures
                matched_args(reg, bare@, av, n as nat) is None,
                *self == *old(self),
                t0 == old(self).transcript@,
                reg == self.command_registry@,
                av == arg_views(args@),
                bare@ == trim_leading(name@, '/'),
            decreases k,
        {
            let cand = candidate_string(&bare, args, k);
            match self.command_registry.resolve(cand.as_str()) {
                Some(cmd) => {
                    let ghost i = choose|i: int| is_first_named(reg, cand@, i) && *cmd == reg[i];
                    let mut echo: Vec<char> = Vec::new();
                    echo.push('/');
                    let cname = chars_of(cmd.name.as_str());
                    let trimmed = trim_leading_chars(&cname, '/');
                    let mut j: usize = 0;
                    while j < trimmed.len()
                        invariant
                            j <= trimmed@.len(),
                            echo@ == seq!['/'] + trimmed@.subrange(0, j as int),
                        decreases trimmed@.len() - j,
                    {
                        echo.push(trimmed[j]);
                        proof {
                            assert(trimmed@.subrange(0, j + 1) =~= trimmed@.subrange(0, j as int).push(
                                trimmed@[j as int],
                            ));
                        }
                        j = j + 1;
                    }
                    proof {
                        assert(trimmed@.subrange(0, trimmed@.len() as int) =~= trimmed@);
                    }
                    if k < n {
                        echo.push(' ');
                        push_joined_args(&mut echo, args, k, n, " ");
                        proof {
                            reveal_strlit(" ");
                            assert(" "@ =~= seq![' ']);
                        }
                    }
                    proof {
                        assert(av.subrange(k as int, n as int) =~= av.skip(k as int));
                        assert(echo@ =~= echo_text(cmd.name@, av.skip(k as int)));
                    }
                    let mut outcome: Vec<char> = Vec::new();
                    if cmd.action.is_some() {
                        push_str_chars(&mut outcome, "Executed: ");
                        let mut j2: usize = 0;
                        let ghost o2 = outcome@;
                        while j2 < trimmed.len()
                            invariant
                                j2 <= trimmed@.len(),
                                outcome@ == o2 + trimmed@.subrange(0, j2 as int),
                            decreases trimmed@.len() - j2,
                        {
                            outcome.push(trimmed[j2]);
                            proof {
                                assert(trimmed@.subrange(0, j2 + 1) =~= trimmed@.subrange(
                                    0,
                                    j2 as int,
                                ).push(trimmed@[j2 as int]));
                            }
                            j2 = j2 + 1;
                        }
                        proof {
                            assert(trimmed@.subrange(0, trimmed@.len() as int) =~= trimmed@);
                        }
                    } else {
                        push_str_chars(&mut outcome, "Command ");
                        push_str_chars(&mut outcome, cmd.name.as_str());
                        push_str_chars(&mut outcome, " is not yet implemented");
                    }
                    proof {
                        assert(outcome@ =~= outcome_text(*cmd));
                    }
                    let echo_s = string_of(echo.as_slice());
                    let outcome_s = string_of(outcome.as_slice());
                    self.push_system_message(echo_s);
                    self.push_system_message(outcome_s);
                    proof {
                        assert(self.transcript@.take(t0.len() as int) =~= t0);
                        assert(is_first_named(reg, candidate(bare@, av, k as int), i));
                        assert(!no_named(reg, candidate(bare@, av, k as int)));
                        assert(matched_args(reg, bare@, av, k as nat) == Some(k as nat));
                        let u = self.transcript@;
                        assert(u[t0.len() as int] == TranscriptEntry::SystemMessage(echo_s));
                        assert(u[t0.len() + 1int] == TranscriptEntry::SystemMessage(outcome_s));
                        assert(is_system_message(
                            u[t0.len() as int],
                            echo_text(reg[i].name@, av.skip(k as int)),
                        ));
                        assert(is_system_message(u[t0.len() + 1int], outcome_text(reg[i])));
                        assert(av.len() == n);
                        assert(matched_args(reg, bare@, av, av.len()) == Some(k as nat));
                        let c = candidate(bare@, av, k as int);
                        let j = choose|j: int| is_first_named(reg, c, j);
                        lemma_first_named_unique(reg, c, i, j);
                        assert(command_report(reg, bare@, av, t0, u, true));
                    }
                    return true;
                },
                None => {
                    proof {
                        assert(no_named(reg, candidate(bare@, av, k as int)));
                    }
                    if k == 0 {
                        break;
                    }
                    k = k - 1;
                },
            }
        }
        let bare_s = string_of(bare.as_slice());
        let sugg = self.command_registry.suggest(bare_s.as_str());
        let mut msg: Vec<char> = Vec::new();
        push_str_chars(&mut msg, "Unknown command: /");
        push_str_chars(&mut msg, bare_s.as_str());
        if sugg.len() > 0 {
            push_str_chars(&mut msg, ". Did you mean: ");
            push_joined_names(&mut msg, &sugg, Ghost(suggested(reg, bare@)), ", ");
            push_str_chars(&mut msg, "?");
        }
        proof {
            assert(names_of(suggested(reg, bare@)).len() == sugg@.len());
            assert(msg@ =~= unknown_text(bare@, names_of(suggested(reg, bare@))));
        }
        let msg_s = string_of(msg.as_slice());
        self.push_system_message(msg_s);
        proof {
            assert(self.transcript@.take(t0.len() as int) =~= t0);
        }
        false
    }

    /// Scroll up by `lines` (stopping at the top) and unpin from the bottom.
    pub fn scroll_up(&mut self, lines: usize)
        ensures
            final(self).scroll_offset == if old(self).scroll_offset >= lines {
                old(self).scroll_offset - lines
            } else {
                0
            },
            !final(self).auto_scroll,
            final(self).dirty,
            only_scroll_changed(*old(self), *final(self)),
    {
        self.scroll_offset = self.scroll_offset.saturating_sub(lines);
        self.auto_scroll = false;
        self.dirty = true;
    }

    /// Scroll down by `lines` (saturating); reaching or passing the end of
    /// the transcript pins the view to the bottom again.
    pub fn scroll_down(&mut self, lines: usize)
        ensures
            final(self).scroll_offset == if old(self).scroll_offset + lines <= usize::MAX {
                old(self).scroll_offset + lines
            } else {
                usize::MAX as int
            },
            final(self).auto_scroll == (old(self).auto_scroll || final(self).scroll_offset
                >= old(self).transcript@.len()),
            final(self).dirty,
            only_scroll_changed(*old(self), *final(self)),
    {
        self.scroll_offset = self.scroll_offset.saturating_add(lines);
        if self.scroll_offset >= self.transcript.len() {
            self.auto_scroll = true;
        }
        self.dirty = true;
    }

    /// Jump to the bottom and pin the view there.
    pub fn scroll_to_bottom(&mut self)
        ensures
            final(self).scroll_offset == old(self).transcript@.len(),
            final(self).auto_scroll,
            final(self).dirty,
            only_scroll_changed(*old(self), *final(self)),
    {
        self.scroll_offset = self.transcript.len();
        self.auto_scroll = true;
        self.dirty = true;
    }

    /// Show a toast.
    pub fn toast(&mut self, level: ToastLevel, title: &str)
        requires
            old(self).wf(),
            old(self).toasts.next() < u64::MAX,
        ensures
            final(self).wf(),
            final(self).toasts.next() == old(self).toasts.next() + 1,
            final(self).toasts@.len() == old(self).toasts@.len() + 1,
            final(self).toasts@.take(old(self).toasts@.len() as int) == old(self).toasts@,
            ({
                let t = final(self).toasts@.last();
                &&& t.id == old(self).toasts.next()
                &&& t.level == level
                &&& t.title@ == title@
                &&& t.body is None
                &&& t.dismiss_after_ms == dismiss_ms(level)
            }),
            final(self).dirty,
            same_session(*old(self), *final(self)),
            final(self).transcript == old(self).transcript,
            final(self).command_registry == old(self).command_registry,
            final(self).scroll_offset == old(self).scroll_offset,
            final(self).auto_scroll == old(self).auto_scroll,
            final(self).streaming == old(self).streaming,
    {
        self.toasts.push(level, title);
        self.dirty = true;
    }

    /// Show a toast with a body.
    pub fn toast_with_body(&mut self, level: ToastLevel, title: &str, body: &str)
        requires
            old(self).wf(),
            old(self).toasts.next() < u64::MAX,
        ensures
            final(self).wf(),
            final(self).toasts.next() == old(self).toasts.next() + 1,
            final(self).toasts@.len() == old(self).toasts@.len() + 1,
            final(self).toasts@.take(old(self).toasts@.len() as int) == old(self).toasts@,
            ({
                let t = final(self).toasts@.last();
                &&& t.id == old(self).toasts.next()
                &&& t.level == level
                &&& t.title@ == title@
                &&& t.body matches Some(b) && b@ == body@
                &&& t.dismiss_after_ms == dismiss_ms(level)
            }),
            final(self).dirty,
            same_session(*old(self), *final(self)),
            final(self).transcript == old(self).transcript,
            final(self).command_registry == old(self).command_registry,
            final(self).scroll_offset == old(self).scroll_offset,
            final(self).auto_scroll == old(self).auto_scroll,
            final(self).streaming == old(self).streaming,
    {
        self.toasts.push_with_body(level, title, body);
        self.dirty = true;
    }

    /// Register a plugin's command (in the plugins category, with no
    /// argument hint and no action).
    pub fn register_plugin_command(&mut self, plugin_name: &str, name: &str, description: &str)
        ensures
            final(self).command_registry@.len() == old(self).command_registry@.len() + 1,
            final(self).command_registry@.take(old(self).command_registry@.len() as int)
                == old(self).command_registry@,
            ({
                let c = final(self).command_registry@.last();
                &&& c.name@ == name@
                &&& c.description@ == description@
                &&& c.category == CommandCategory::Plugins
                &&& from_plugin(c, plugin_name@)
                &&& c.args_hint is None
                &&& c.action is None
            }),
            same_session(*old(self), *final(self)),
            final(self).transcript == old(self).transcript,
            final(self).toasts == old(self).toasts,
            final(self).dirty == old(self).dirty,
    {
        let ghost r0 = self.command_registry@;
        self.command_registry.register(
            CommandDef {
                name: name.to_owned(),
                description: description.to_owned(),
                category: CommandCategory::Plugins,
                source: CommandSource::Plugin(plugin_name.to_owned()),
                args_hint: None,
                action: None,
            },
        );
        proof {
            assert(self.command_registry@.take(r0.len() as int) =~= r0);
        }
    }

    /// Remove every command registered by `plugin_name`.
    pub fn remove_plugin_commands(&mut self, plugin_name: &str)
        ensures
            final(self).command_registry@ == without_plugin(old(self).command_registry@, plugin_name@),
            same_session(*old(self), *final(self)),
            final(self).transcript == old(self).transcript,
            final(self).toasts == old(self).toasts,
            final(self).dirty == old(self).dirty,
    {
        self.command_registry.remove_by_source_name(plugin_name);
    }

    /// A plugin session started; plugins register their parts one by one,
    /// so nothing changes here.
    pub fn plugin_session_start(&mut self, _plugin_name: &str)
        ensures
            *final(self) == *old(self),
    {
    }

    /// A plugin session ended: its commands go.
    pub fn plugin_session_end(&mut self, plugin_name: &str)
        ensures
            final(self).command_registry@ == without_plugin(old(self).command_registry@, plugin_name@),
            same_session(*old(self), *final(self)),
            final(self).transcript == old(self).transcript,
            final(self).toasts == old(self).toasts,
            final(self).dirty == old(self).dirty,
    {
        self.remove_plugin_commands(plugin_name);
    }
}

impl Default for AppState {
    fn default() -> (s: Self)
        ensures
            s.wf(),
            s.transcript@.len() == 0,
            s.scroll_offset == 0,
            s.auto_scroll,
            s.focus == FocusTarget::Input,
            s.dirty,
            !s.streaming,
            builtin_table(s.command_registry@),
    {
        Self::new()
    }
}

// ---------------------------------------------------------------------------
// Key actions on the view and the prompt
// ---------------------------------------------------------------------------

/// Rows a page scroll moves in a terminal `height` rows high: half the
/// transcript viewport (the height less four rows of chrome), at least one.
pub open spec fn half_page(height: u16) -> int {
    let v: int = if height >= 4 {
        height - 4
    } else {
        0
    };
    if v / 2 >= 1 {
        v / 2
    } else {
        1
    }
}

/// The actions `dispatch_action` carries out: exiting, scrolling, the prompt
/// newline and dismiss, accepting a selected completion, and the Vim mode
/// switches. The others (and Tab with no completion selected, which cycles
/// agents) need state that `AppState` does not hold: overlays, the sidebar
/// layout, tabs, agents, the message queue.
pub open spec fn handled_here(a: Action, input: InputBoxState) -> bool {
    match a {
        Action::Exit | Action::ScrollUp | Action::ScrollDown | Action::PageUp
        | Action::HalfPageUp | Action::PageDown | Action::HalfPageDown | Action::ScrollToTop
        | Action::ScrollToBottom | Action::NewlineInInput | Action::Dismiss
        | Action::EnterInsertMode | Action::EnterNormalMode => true,
        Action::AcceptAutocomplete => input.autocomplete.visible && input.autocomplete.selected
            < input.autocomplete.entries@.len(),
        _ => false,
    }
}

/// `b` is `a` scrolled up by `n` rows (stopping at the top), unpinned and marked for redraw.
pub open spec fn scrolled_up(a: AppState, b: AppState, n: int) -> bool {
    &&& b.scroll_offset == if a.scroll_offset >= n {
        a.scroll_offset - n
    } else {
        0
    }
    &&& !b.auto_scroll
    &&& b.dirty
    &&& only_scroll_changed(a, b)
}

/// `b` is `a` scrolled down by `n` rows (saturating), pinned once past the
/// last entry, and marked for redraw.
pub open spec fn scrolled_down(a: AppState, b: AppState, n: int) -> bool {
    &&& b.scroll_offset == if a.scroll_offset + n <= usize::MAX {
        a.scroll_offset + n
    } else {
        usize::MAX as int
    }
    &&& b.auto_scroll == (a.auto_scroll || b.scroll_offset >= a.transcript@.len())
    &&& b.dirty
    &&& only_scroll_changed(a, b)
}

/// `b` is `a` marked for redraw and otherwise the same.
pub open spec fn only_redrawn(a: AppState, b: AppState) -> bool {
    &&& b.dirty
    &&& only_log_changed(a, b)
    &&& a.transcript == b.transcript
}

/// `b` is `a` in input mode `m`, marked for redraw, with the focus `f`.
pub open spec fn mode_switched(a: AppState, b: AppState, m: InputMode, f: FocusTarget) -> bool {
    &&& b.keybinds.mode == m
    &&& b.keybinds.preset == a.keybinds.preset
    &&& b.keybinds.bindings_view() == a.keybinds.bindings_view()
    &&& b.keybinds.wf() == a.keybinds.wf()
    &&& b.focus == f
    &&& b.dirty
    &&& b.transcript == a.transcript
    &&& b.scroll_offset == a.scroll_offset
    &&& b.auto_scroll == a.auto_scroll
    &&& b.streaming == a.streaming
    &&& b.command_registry == a.command_registry
    &&& b.toasts == a.toasts
    &&& b.session_title == a.session_title
    &&& b.session_id == a.session_id
    &&& b.parent_title == a.parent_title
    &&& b.multiplexer == a.multiplexer
    &&& b.last_ctrl_c == a.last_ctrl_c
    &&& b.ctrl_c_hint == a.ctrl_c_hint
}

/// Carry out a resolved key action on the view and the prompt, in a terminal
/// `terminal_height` rows high. `Some(true)` asks the loop to exit,
/// `Some(false)` means the action was carried out, and `None` leaves both
/// untouched for an action that needs state held outside this library (see
/// `handled_here`); the caller carries those out itself.
pub fn dispatch_action(
    action: Action,
    app: &mut AppState,
    input_box: &mut InputBoxState,
    terminal_height: u16,
) -> (r: Option<bool>)
    requires
        action == Action::NewlineInInput ==> {
            &&& old(input_box).wf()
            &&& old(input_box).cursor_col < usize::MAX
        },
    ensures
        r == if handled_here(action, *old(input_box)) {
            Some(action == Action::Exit)
        } else {
            None
        },
        !handled_here(action, *old(input_box)) || action == Action::Exit ==> *final(app) == *old(
            app,
        ),
        !handled_here(action, *old(input_box)) || (action != Action::NewlineInInput && action
            != Action::Dismiss && action != Action::AcceptAutocomplete) ==> *final(input_box)
            == *old(input_box),
        action == Action::AcceptAutocomplete && handled_here(action, *old(input_box)) ==> {
            let old_in = *old(input_box);
            let entry = old_in.autocomplete.entries@[old_in.autocomplete.selected as int];
            let mention = old_in.content@.len() > 0 && old_in.content@[0] == '@';
            &&& only_redrawn(*old(app), *final(app))
            &&& final(input_box).wf()
            &&& final(input_box).content@ == completion_text(entry.name@, mention)
            &&& final(input_box).cursor_pos == byte_len(final(input_box).content@)
            &&& final(input_box).cursor_col == str_cols(final(input_box).content@)
            &&& !final(input_box).autocomplete.visible
            &&& final(input_box).autocomplete.entries == old_in.autocomplete.entries
            &&& final(input_box).autocomplete.selected == old_in.autocomplete.selected
            &&& final(input_box).kill_ring == old_in.kill_ring
        },
        action == Action::ScrollUp ==> scrolled_up(*old(app), *final(app), 1),
        action == Action::ScrollDown ==> scrolled_down(*old(app), *final(app), 1),
        action == Action::PageUp || action == Action::HalfPageUp ==> scrolled_up(
            *old(app),
            *final(app),
            half_page(terminal_height),
        ),
        action == Action::PageDown || action == Action::HalfPageDown ==> scrolled_down(
            *old(app),
            *final(app),
            half_page(terminal_height),
        ),
        action == Action::ScrollToTop ==> {
            &&& final(app).scroll_offset == 0
            &&& !final(app).auto_scroll
            &&& final(app).dirty
            &&& only_scroll_changed(*old(app), *final(app))
        },
        action == Action::ScrollToBottom ==> {
            &&& final(app).scroll_offset == old(app).transcript@.len()
            &&& final(app).auto_scroll
            &&& final(app).dirty
            &&& only_scroll_changed(*old(app), *final(app))
        },
        action == Action::NewlineInInput ==> {
            &&& only_redrawn(*old(app), *final(app))
            &&& final(input_box).wf()
            &&& final(input_box).content@ == old(input_box).content@.insert(
                old(input_box).cursor(),
                '\n',
            )
            &&& final(input_box).cursor() == old(input_box).cursor() + 1
            &&& final(input_box).cursor_col == 0
            &&& final(input_box).autocomplete == old(input_box).autocomplete
            &&& final(input_box).kill_ring == old(input_box).kill_ring
        },
        action == Action::Dismiss ==> {
            &&& only_redrawn(*old(app), *final(app))
            &&& !final(input_box).autocomplete.visible
            &&& final(input_box).autocomplete.entries == old(input_box).autocomplete.entries
            &&& final(input_box).autocomplete.selected == old(input_box).autocomplete.selected
            &&& final(input_box).kill_ring == old(input_box).kill_ring
            &&& old(input_box).autocomplete.visible ==> {
                &&& final(input_box).content == old(input_box).content
                &&& final(input_box).cursor_pos == old(input_box).cursor_pos
                &&& final(input_box).cursor_col == old(input_box).cursor_col
            }
            &&& !old(input_box).autocomplete.visible ==> {
                &&& final(input_box).content@.len() == 0
                &&& final(input_box).cursor_pos == 0
                &&& final(input_box).cursor_col == 0
            }
        },
        action == Action::EnterInsertMode ==> mode_switched(
            *old(app),
            *final(app),
            InputMode::Insert,
            FocusTarget::Input,
        ),
        action == Action::EnterNormalMode ==> mode_switched(
            *old(app),
            *final(app),
            InputMode::Normal,
            old(app).focus,
        ),
{
    let viewport: u16 = terminal_height.saturating_sub(4);
    let half: usize = if viewport / 2 >= 1 {
        (viewport / 2) as usize
    } else {
        1
    };
    match action {
        Action::Exit => Some(true),
        Action::ScrollUp => {
            app.scroll_up(1);
            Some(false)
        },
        Action::ScrollDown => {
            app.scroll_down(1);
            Some(false)
        },
        Action::PageUp | Action::HalfPageUp => {
            app.scroll_up(half);
            Some(false)
        },
        Action::PageDown | Action::HalfPageDown => {
            app.scroll_down(half);
            Some(false)
        },
        Action::ScrollToTop => {
            app.scroll_offset = 0;
            app.auto_scroll = false;
            app.mark_dirty();
            Some(false)
        },
        Action::ScrollToBottom => {
            app.scroll_to_bottom();
            Some(false)
        },
        Action::NewlineInInput => {
            input_box.insert_newline();
            app.mark_dirty();
            Some(false)
        },
        Action::Dismiss => {
            if input_box.autocomplete.visible {
                input_box.autocomplete.hide_dropdown();
            } else {
                input_box.clear();
            }
            app.mark_dirty();
            Some(false)
        },
        Action::EnterInsertMode => {
            app.keybinds.set_mode(InputMode::Insert);
            app.focus = FocusTarget::Input;
            app.mark_dirty();
            Some(false)
        },
        Action::EnterNormalMode => {
            app.keybinds.set_mode(InputMode::Normal);
            app.mark_dirty();
            Some(false)
        },
        Action::AcceptAutocomplete => {
            let name = match input_box.autocomplete.selected_entry() {
                Some(entry) => chars_of(entry.name.as_str()),
                None => {
                    return None;
                },
            };
            let mention = input_box.has_mention_prefix();
            input_box.fill_completion(&name, mention);
            input_box.autocomplete.hide_dropdown();
            app.mark_dirty();
            Some(false)
        },
        _ => None,
    }
}

} // verus!
