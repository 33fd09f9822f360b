//! Transcript entries (messages, streaming replies, tool calls, events), the
//! word wrapping used for user messages, and the row height of each entry.

use vstd::prelude::*;

use std::time::Instant;
use vstd::string::StringExecFns;

use crate::text::{
    char_display_width, char_width, chars_of, is_space, is_space_char, lemma_byte_offset_mono,
    str_display_width, str_width, string_byte_len, string_of,
};
use crate::toast::instant_now;

verus! {

/// Progress of a tool call.
#[derive(Debug, Clone, Copy, PartialEq, Eq, Structural)]
pub enum ToolCallStatus {
    Running,
    Success,
    Failed,
    PendingApproval,
}

/// An assistant reply being streamed in.
#[derive(Debug, Clone)]
pub struct StreamingMessage {
    pub content: String,
    pub started_at: Instant,
    pub token_count: usize,
    pub is_complete: bool,
}

impl StreamingMessage {
    /// An empty reply started now.
    pub fn new() -> (m: Self)
        ensures
            m.content@.len() == 0,
            m.token_count == 0,
            !m.is_complete,
    {
        StreamingMessage {
            content: String::new(),
            started_at: instant_now(),
            token_count: 0,
            is_complete: false,
        }
    }

    /// Append `token` to the content and count it.
    pub fn push_token(&mut self, token: &str)
        requires
            old(self).token_count < usize::MAX,
        ensures
            final(self).content@ == old(self).content@ + token@,
            final(self).token_count == old(self).token_count + 1,
            final(self).is_complete == old(self).is_complete,
            final(self).started_at == old(self).started_at,
    {
        self.content.append(token);
        self.token_count = self.token_count + 1;
    }

    pub fn finalize(&mut self)
        ensures
            final(self).is_complete,
            final(self).content == old(self).content,
            final(self).token_count == old(self).token_count,
            final(self).started_at == old(self).started_at,
    {
        self.is_complete = true;
    }
}

impl Default for StreamingMessage {
    fn default() -> (m: Self)
        ensures
            m.content@.len() == 0,
            m.token_count == 0,
            !m.is_complete,
    {
        Self::new()
    }
}

// Two streaming messages are equal when their content, token count and
// completion match; the start time is not compared.
impl PartialEq for StreamingMessage {
    fn eq(&self, other: &Self) -> (r: bool) {
        self.content == other.content && self.token_count == other.token_count
            && self.is_complete == other.is_complete
    }
}

impl vstd::std_specs::cmp::PartialEqSpecImpl for StreamingMessage {
    open spec fn obeys_eq_spec() -> bool {
        true
    }

    open spec fn eq_spec(&self, other: &Self) -> bool {
        self.content@ == other.content@ && self.token_count == other.token_count
            && self.is_complete == other.is_complete
    }
}

/// One entry of the transcript.
#[derive(Debug, Clone, PartialEq)]
pub enum TranscriptEntry {
    UserMessage(String),
    /// Completed assistant message.
    AssistantMessage(String),
    /// In-progress assistant message.
    Streaming(StreamingMessage),
    ToolCall {
        name: String,
        status: ToolCallStatus,
        duration_ms: Option<u64>,
        summary: Option<String>,
        thinking: Option<String>,
        output: Option<String>,
    },
    /// e.g. "rate-limit on anthropic -> openai/gpt-4o"
    RouterEvent(String),
    /// Info/warning from the system.
    SystemMessage(String),
    PatchProposed { file_path: String, raw_diff: String, patch_id: Option<String> },
}

/// Where keyboard focus is.
#[derive(Debug, Clone, Copy, PartialEq, Eq, Structural)]
pub enum FocusTarget {
    Input,
    Transcript,
    Sidebar,
    Overlay,
}

impl Default for FocusTarget {
    fn default() -> (f: Self)
        ensures
            f == FocusTarget::Input,
    {
        FocusTarget::Input
    }
}

// ---------------------------------------------------------------------------
// Word wrapping
// ---------------------------------------------------------------------------

/// Pieces of `s` between newlines, scanning from `i` with `cur` read so far (`str::split('\n')`).
pub open spec fn split_go(s: Seq<char>, i: int, cur: Seq<char>) -> Seq<Seq<char>>
    decreases s.len() - i,
{
    if i >= s.len() {
        seq![cur]
    } else if s[i] == '\n' {
        seq![cur] + split_go(s, i + 1, Seq::empty())
    } else {
        split_go(s, i + 1, cur.push(s[i]))
    }
}

/// The lines of `s` split at every newline.
pub open spec fn split_newlines(s: Seq<char>) -> Seq<Seq<char>> {
    split_go(s, 0, Seq::empty())
}

/// Runs of non-whitespace in `p`, scanning from `i` (`str::split_whitespace`).
pub open spec fn words_go(p: Seq<char>, i: int, cur: Seq<char>) -> Seq<Seq<char>>
    decreases p.len() - i,
{
    if i >= p.len() {
        if cur.len() > 0 {
            seq![cur]
        } else {
            Seq::empty()
        }
    } else if is_space(p[i]) {
        if cur.len() > 0 {
            seq![cur] + words_go(p, i + 1, Seq::empty())
        } else {
            words_go(p, i + 1, Seq::empty())
        }
    } else {
        words_go(p, i + 1, cur.push(p[i]))
    }
}

/// The whitespace-separated words of `p`.
pub open spec fn words_of(p: Seq<char>) -> Seq<Seq<char>> {
    words_go(p, 0, Seq::empty())
}

/// Greedy wrapping of `ws[i..]` to `max` columns, with `cur` (of width `cw`)
/// being the line under construction; a word wider than `max` gets a line of its own.
pub open spec fn wrap_go(ws: Seq<Seq<char>>, max: int, i: int, cur: Seq<char>, cw: int) -> Seq<
    Seq<char>,
>
    decreases ws.len() - i,
{
    if i >= ws.len() || i < 0 {
        seq![cur]
    } else {
        let w = ws[i];
        let ww = str_width(w) as int;
        if cur.len() == 0 {
            wrap_go(ws, max, i + 1, w, ww)
        } else if cw + 1 + ww <= max {
            wrap_go(ws, max, i + 1, cur + seq![' '] + w, cw + 1 + ww)
        } else {
            seq![cur] + wrap_go(ws, max, i + 1, w, ww)
        }
    }
}

/// The wrapped lines of the first `k` paragraphs.
pub open spec fn wrap_paras(ps: Seq<Seq<char>>, max: int, k: int) -> Seq<Seq<char>>
    decreases k,
{
    if k <= 0 {
        Seq::empty()
    } else {
        wrap_paras(ps, max, k - 1) + wrap_go(words_of(ps[k - 1]), max, 0, Seq::empty(), 0)
    }
}

/// `text` wrapped to `width` columns: each newline-separated paragraph is
/// wrapped on its own (an empty paragraph gives an empty line); empty text or
/// zero width gives no lines.
pub open spec fn wrapped(text: Seq<char>, width: int) -> Seq<Seq<char>> {
    if width == 0 || text.len() == 0 {
        Seq::empty()
    } else {
        let ps = split_newlines(text);
        wrap_paras(ps, width, ps.len() as int)
    }
}

/// The strings of `v`, as character sequences.
pub open spec fn strings_view(v: Seq<String>) -> Seq<Seq<char>> {
    v.map_values(|s: String| s@)
}

/// Split `v` at newlines.
fn split_on_newlines(v: &Vec<char>) -> (r: Vec<Vec<char>>)
    ensures
        r@.map_values(|x: Vec<char>| x@) == split_newlines(v@),
{
    let n = v.len();
    let mut out: Vec<Vec<char>> = Vec::new();
    let mut cur: Vec<char> = Vec::new();
    let mut i: usize = 0;
    while i < n
        invariant
            n == v@.len(),
            i <= n,
            out@.map_values(|x: Vec<char>| x@) + split_go(v@, i as int, cur@) == split_newlines(
                v@,
            ),
        decreases n - i,
    {
        let ghost o0 = out@.map_values(|x: Vec<char>| x@);
        let ghost c0 = cur@;
        if v[i] == '\n' {
            let done = cur;
            cur = Vec::new();
            out.push(done);
            proof {
                assert(out@.map_values(|x: Vec<char>| x@) =~= o0.push(c0));
                assert(split_go(v@, i as int, c0) == seq![c0] + split_go(v@, i + 1, Seq::empty()));
                assert(out@.map_values(|x: Vec<char>| x@) + split_go(v@, i + 1, cur@) =~= o0
                    + split_go(v@, i as int, c0));
            }
        } else {
            cur.push(v[i]);
        }
        i = i + 1;
    }
    let ghost o1 = out@.map_values(|x: Vec<char>| x@);
    out.push(cur);
    proof {
        assert(out@.map_values(|x: Vec<char>| x@) =~= o1 + split_go(v@, n as int, cur@));
    }
    out
}

/// The whitespace-separated words of `p`.
fn split_words(p: &Vec<char>) -> (r: Vec<Vec<char>>)
    ensures
        r@.map_values(|x: Vec<char>| x@) == words_of(p@),
{
    let n = p.len();
    let mut out: Vec<Vec<char>> = Vec::new();
    let mut cur: Vec<char> = Vec::new();
    let mut i: usize = 0;
    while i < n
        invariant
            n == p@.len(),
            i <= n,
            out@.map_values(|x: Vec<char>| x@) + words_go(p@, i as int, cur@) == words_of(p@),
        decreases n - i,
    {
        let ghost o0 = out@.map_values(|x: Vec<char>| x@);
        let ghost c0 = cur@;
        if is_space_char(p[i]) {
            if cur.len() > 0 {
                let done = cur;
                cur = Vec::new();
                out.push(done);
                proof {
                    assert(out@.map_values(|x: Vec<char>| x@) =~= o0.push(c0));
                    assert(out@.map_values(|x: Vec<char>| x@) + words_go(p@, i + 1, cur@) =~= o0
                        + words_go(p@, i as int, c0));
                }
            } else {
                assert(c0 =~= Seq::<char>::empty());
                assert(words_go(p@, i as int, c0) == words_go(p@, i + 1, cur@));
            }
        } else {
            cur.push(p[i]);
            assert(words_go(p@, i as int, c0) == words_go(p@, i + 1, cur@));
        }
        i = i + 1;
    }
    if cur.len() > 0 {
        let ghost o1 = out@.map_values(|x: Vec<char>| x@);
        out.push(cur);
        proof {
            assert(out@.map_values(|x: Vec<char>| x@) =~= o1 + words_go(p@, n as int, cur@));
        }
    } else {
        proof {
            assert(out@.map_values(|x: Vec<char>| x@) =~= out@.map_values(|x: Vec<char>| x@)
                + words_go(p@, n as int, cur@));
        }
    }
    out
}

/// Display width of a word (`UnicodeWidthStr::width`).
fn word_width(w: &Vec<char>) -> (n: usize)
    ensures
        n == str_width(w@),
{
    let s = string_of(w.as_slice());
    str_display_width(s.as_str())
}

/// Append the characters of `src` to `dst`.
fn push_chars(dst: &mut Vec<char>, src: &Vec<char>)
    ensures
        final(dst)@ == old(dst)@ + src@,
{
    let ghost d0 = dst@;
    let mut t: usize = 0;
    while t < src.len()
        invariant
            t <= src@.len(),
            dst@ == d0 + src@.subrange(0, t as int),
        decreases src@.len() - t,
    {
        dst.push(src[t]);
        proof {
            assert(src@.subrange(0, t + 1) =~= src@.subrange(0, t as int).push(src@[t as int]));
        }
        t = t + 1;
    }
    proof {
        assert(src@.subrange(0, src@.len() as int) =~= src@);
    }
}

/// Wrap the words `ws` greedily to `max` columns, appending the lines to `lines`.
fn wrap_words(ws: &Vec<Vec<char>>, max: usize, lines: &mut Vec<String>)
    requires
        max >= 1,
    ensures
        strings_view(final(lines)@) == strings_view(old(lines)@) + wrap_go(
            ws@.map_values(|x: Vec<char>| x@),
            max as int,
            0,
            Seq::empty(),
            0,
        ),
{
    let ghost wsv = ws@.map_values(|x: Vec<char>| x@);
    let ghost l0 = strings_view(lines@);
    let n = ws.len();
    let mut cur: Vec<char> = Vec::new();
    let mut cw: usize = 0;
    let mut i: usize = 0;
    while i < n
        invariant
            n == ws@.len(),
            wsv == ws@.map_values(|x: Vec<char>| x@),
            max >= 1,
            i <= n,
            l0 == strings_view(old(lines)@),
            strings_view(lines@) + wrap_go(wsv, max as int, i as int, cur@, cw as int) == l0
                + wrap_go(wsv, max as int, 0, Seq::empty(), 0),
        decreases n - i,
    {
        let ghost lv = strings_view(lines@);
        let ghost c0 = cur@;
        let ghost cw0 = cw as int;
        let w = &ws[i];
        let ww = word_width(w);
        assert(wsv[i as int] == w@);
        if cur.len() == 0 {
            cur = Vec::new();
            push_chars(&mut cur, w);
            cw = ww;
        } else if ww < max && cw <= max - 1 - ww {
            cur.push(' ');
            push_chars(&mut cur, w);
            proof {
                assert(cur@ =~= c0 + seq![' '] + w@);
            }
            cw = cw + 1 + ww;
        } else {
            let line = string_of(cur.as_slice());
            lines.push(line);
            proof {
                assert(strings_view(lines@) =~= lv.push(c0));
                assert(lv.push(c0) + wrap_go(wsv, max as int, i + 1, w@, ww as int) =~= lv + (seq![
                    c0,
                ] + wrap_go(wsv, max as int, i + 1, w@, ww as int)));
            }
            cur = Vec::new();
            push_chars(&mut cur, w);
            cw = ww;
        }
        i = i + 1;
    }
    let ghost lv = strings_view(lines@);
    let line = string_of(cur.as_slice());
    lines.push(line);
    proof {
        assert(strings_view(lines@) =~= lv + wrap_go(wsv, max as int, n as int, cur@, cw as int));
    }
}

/// Greedy word wrap: `text` is split at newlines, and each paragraph is
/// wrapped on its own to at most `width` columns (an empty paragraph keeps an
/// empty line; a word wider than `width` stands alone). Empty text or zero
/// width gives no lines.
pub fn wrap_text(text: &str, width: u16) -> (lines: Vec<String>)
    ensures
        strings_view(lines@) == wrapped(text@, width as int),
{
    let chars = chars_of(text);
    if width == 0 || chars.len() == 0 {
        let lines: Vec<String> = Vec::new();
        proof {
            assert(strings_view(lines@) =~= Seq::<Seq<char>>::empty());
        }
        return lines;
    }
    let max = width as usize;
    let paras = split_on_newlines(&chars);
    let ghost ps = paras@.map_values(|x: Vec<char>| x@);
    let mut lines: Vec<String> = Vec::new();
    let mut k: usize = 0;
    proof {
        assert(strings_view(lines@) =~= wrap_paras(ps, max as int, 0));
    }
    while k < paras.len()
        invariant
            max >= 1,
            max == width,
            ps == paras@.map_values(|x: Vec<char>| x@),
            k <= paras@.len(),
            strings_view(lines@) == wrap_paras(ps, max as int, k as int),
        decreases paras@.len() - k,
    {
        let words = split_words(&paras[k]);
        assert(ps[k as int] == paras@[k as int]@);
        wrap_words(&words, max, &mut lines);
        k = k + 1;
    }
    lines
}

/// Sum over the lines of `ps` of each line's length plus one.
pub open spec fn total_len(ps: Seq<Seq<char>>) -> nat
    decreases ps.len(),
{
    if ps.len() == 0 {
        0
    } else {
        total_len(ps.drop_last()) + ps.last().len() + 1
    }
}

proof fn lemma_total_len_concat(a: Seq<Seq<char>>, b: Seq<Seq<char>>)
    ensures
        total_len(a + b) == total_len(a) + total_len(b),
    decreases b.len(),
{
    if b.len() > 0 {
        assert((a + b).drop_last() =~= a + b.drop_last());
        lemma_total_len_concat(a, b.drop_last());
    } else {
        assert(a + b =~= a);
    }
}

proof fn lemma_split_go_total(s: Seq<char>, i: int, cur: Seq<char>)
    requires
        0 <= i <= s.len(),
    ensures
        total_len(split_go(s, i, cur)) == s.len() - i + cur.len() + 1,
    decreases s.len() - i,
{
    assert(seq![cur].drop_last() =~= Seq::<Seq<char>>::empty());
    if i < s.len() {
        if s[i] == '\n' {
            lemma_split_go_total(s, i + 1, Seq::empty());
            lemma_total_len_concat(seq![cur], split_go(s, i + 1, Seq::empty()));
            assert(split_go(s, i, cur) == seq![cur] + split_go(s, i + 1, Seq::empty()));
        } else {
            lemma_split_go_total(s, i + 1, cur.push(s[i]));
            assert(split_go(s, i, cur) == split_go(s, i + 1, cur.push(s[i])));
        }
    } else {
        assert(split_go(s, i, cur) == seq![cur]);
    }
    assert(total_len(seq![cur]) == cur.len() + 1) by {
        reveal_with_fuel(total_len, 2);
    }
}

proof fn lemma_words_go_len(p: Seq<char>, i: int, cur: Seq<char>)
    requires
        0 <= i <= p.len(),
    ensures
        words_go(p, i, cur).len() <= p.len() - i + (if cur.len() > 0 {
            1int
        } else {
            0int
        }),
    decreases p.len() - i,
{
    if i < p.len() {
        if is_space(p[i]) {
            lemma_words_go_len(p, i + 1, Seq::empty());
        } else {
            lemma_words_go_len(p, i + 1, cur.push(p[i]));
        }
    }
}

proof fn lemma_wrap_go_len(ws: Seq<Seq<char>>, max: int, i: int, cur: Seq<char>, cw: int)
    requires
        0 <= i <= ws.len(),
    ensures
        wrap_go(ws, max, i, cur, cw).len() <= ws.len() - i + 1,
    decreases ws.len() - i,
{
    if i < ws.len() {
        let w = ws[i];
        let ww = str_width(w) as int;
        lemma_wrap_go_len(ws, max, i + 1, w, ww);
        lemma_wrap_go_len(ws, max, i + 1, cur + seq![' '] + w, cw + 1 + ww);
    }
}

proof fn lemma_wrap_paras_len(ps: Seq<Seq<char>>, max: int, k: int)
    requires
        0 <= k <= ps.len(),
    ensures
        wrap_paras(ps, max, k).len() <= total_len(ps.subrange(0, k)),
    decreases k,
{
    if k > 0 {
        lemma_wrap_paras_len(ps, max, k - 1);
        lemma_words_go_len(ps[k - 1], 0, Seq::empty());
        lemma_wrap_go_len(words_of(ps[k - 1]), max, 0, Seq::empty(), 0);
        assert(ps.subrange(0, k).drop_last() =~= ps.subrange(0, k - 1));
    }
}

/// Wrapping never gives more lines than the text has characters, plus one.
pub proof fn lemma_wrapped_len(text: Seq<char>, width: int)
    ensures
        wrapped(text, width).len() <= text.len() + 1,
{
    if width != 0 && text.len() != 0 {
        let ps = split_newlines(text);
        lemma_wrap_paras_len(ps, width, ps.len() as int);
        assert(ps.subrange(0, ps.len() as int) =~= ps);
        lemma_split_go_total(text, 0, Seq::empty());
    }
}

// ---------------------------------------------------------------------------
// Entry heights
// ---------------------------------------------------------------------------

/// The gutter drawn before each line of a user message.
pub open spec fn user_prefix() -> Seq<char> {
    seq!['\u{2502}', ' ']
}

/// `a - b`, or 0 when `b > a`.
pub open spec fn sat_sub(a: int, b: int) -> int {
    if a > b {
        a - b
    } else {
        0
    }
}

/// The larger of `a` and `b`.
pub open spec fn max_int(a: int, b: int) -> int {
    if a >= b {
        a
    } else {
        b
    }
}

/// One row for an optional block that is present and non-empty.
pub open spec fn block_rows(s: Option<String>) -> int {
    match s {
        Some(t) => if t@.len() == 0 {
            0int
        } else {
            1int
        },
        None => 0int,
    }
}

/// Rows that `entry` takes at `width` columns, where `markdown_rows` is the
/// number of lines the markdown renderer gives for the body of an assistant
/// or streaming message at `width - 2` columns. Every entry but a streaming
/// one ends with a blank separator row.
pub open spec fn entry_rows(entry: TranscriptEntry, width: u16, markdown_rows: usize) -> int {
    match entry {
        TranscriptEntry::UserMessage(text) => {
            let text_w = sat_sub(width as int, (str_width(user_prefix()) as u16) as int);
            max_int(wrapped(text@, text_w).len() as int, 1) + 1
        },
        TranscriptEntry::AssistantMessage(_) => max_int(markdown_rows as int, 1) + 1,
        TranscriptEntry::Streaming(_) => max_int(markdown_rows as int, 1),
        TranscriptEntry::ToolCall { thinking, output, .. } => 1 + block_rows(thinking)
            + block_rows(output) + 1,
        TranscriptEntry::RouterEvent(_) => 2,
        TranscriptEntry::SystemMessage(_) => 2,
        TranscriptEntry::PatchProposed { .. } => 2,
    }
}

/// Whether an optional block is present and non-empty.
fn has_block(s: &Option<String>) -> (b: bool)
    ensures
        b == (block_rows(*s) == 1),
{
    match s {
        Some(t) => !t.as_str().is_empty(),
        None => false,
    }
}

/// How many terminal rows `entry` occupies when rendered at `width`;
/// `markdown_rows` is what the markdown renderer gives for the body of an
/// assistant or streaming message at `width - 2` columns.
pub fn entry_height(entry: &TranscriptEntry, width: u16, markdown_rows: usize) -> (h: usize)
    requires
        entry is AssistantMessage ==> markdown_rows < usize::MAX,
    ensures
        h == entry_rows(*entry, width, markdown_rows),
{
    match entry {
        TranscriptEntry::UserMessage(text) => {
            let prefix = "\u{2502} ";
            proof {
                reveal_strlit("\u{2502} ");
                assert(prefix@ =~= user_prefix());
            }
            let prefix_w = str_display_width(prefix) as u16;
            let text_w = width.saturating_sub(prefix_w);
            let lines = wrap_text(text.as_str(), text_w);
            let _bytes = string_byte_len(text);
            proof {
                lemma_wrapped_len(text@, text_w as int);
                lemma_byte_offset_mono(text@, 0, text@.len() as int);
                assert(lines@.len() == strings_view(lines@).len());
            }
            let rows = if lines.len() >= 1 {
                lines.len()
            } else {
                1
            };
            rows + 1
        },
        TranscriptEntry::AssistantMessage(_) => {
            let rows = if markdown_rows >= 1 {
                markdown_rows
            } else {
                1
            };
            rows + 1
        },
        TranscriptEntry::Streaming(_) => {
            if markdown_rows >= 1 {
                markdown_rows
            } else {
                1
            }
        },
        TranscriptEntry::ToolCall { thinking, output, .. } => {
            let t: usize = if has_block(thinking) {
                1
            } else {
                0
            };
            let o: usize = if has_block(output) {
                1
            } else {
                0
            };
            1 + t + o + 1
        },
        TranscriptEntry::RouterEvent(_) => 2,
        TranscriptEntry::SystemMessage(_) => 2,
        TranscriptEntry::PatchProposed { .. } => 2,
    }
}

// ---------------------------------------------------------------------------
// Highlighting a column range
// ---------------------------------------------------------------------------

/// Columns a character takes when highlighting: its width, or 0 for a
/// control character.
pub open spec fn char_cols0(c: char) -> nat {
    match char_width(c) {
        Some(w) => w as nat,
        None => 0,
    }
}

/// Sum of `char_cols0` over `t`.
pub open spec fn str_cols0(t: Seq<char>) -> nat
    decreases t.len(),
{
    if t.len() == 0 {
        0
    } else {
        str_cols0(t.drop_last()) + char_cols0(t.last())
    }
}

/// Which part of a highlight the character `t[i]` falls in, for a span
/// starting at column `col`: 0 before `start`, 1 inside, 2 at or after `end`.
pub open spec fn region_of(t: Seq<char>, col: int, i: int, start: int, end: int) -> int {
    let c = col + str_cols0(t.take(i));
    if c < start {
        0
    } else if c < end {
        1
    } else {
        2
    }
}

/// The characters of `t` that fall in part `r`, in order.
pub open spec fn region_chars(t: Seq<char>, col: int, start: int, end: int, r: int) -> Seq<char>
    decreases t.len(),
{
    if t.len() == 0 {
        Seq::empty()
    } else {
        let rest = region_chars(t.drop_last(), col, start, end, r);
        if region_of(t, col, t.len() - 1, start, end) == r {
            rest.push(t.last())
        } else {
            rest
        }
    }
}

/// `(text, style)` as a one-segment sequence when `text` is non-empty.
pub open spec fn seg_if<S>(text: Seq<char>, style: S, selected: bool) -> Seq<(Seq<char>, S, bool)> {
    if text.len() > 0 {
        seq![(text, style, selected)]
    } else {
        Seq::empty()
    }
}

/// The segments one span gives: the span unchanged when it lies wholly
/// outside `[start, end)`, else its non-empty parts before, inside and after.
pub open spec fn span_segments<S>(t: Seq<char>, st: S, col: int, start: int, end: int) -> Seq<
    (Seq<char>, S, bool),
> {
    let e = col + str_cols0(t);
    if e <= start || col >= end {
        seq![(t, st, false)]
    } else {
        seg_if(region_chars(t, col, start, end, 0), st, false) + seg_if(
            region_chars(t, col, start, end, 1),
            st,
            true,
        ) + seg_if(region_chars(t, col, start, end, 2), st, false)
    }
}

/// The segments of `spans`, the first starting at column `col`.
pub open spec fn highlight_from<S>(spans: Seq<(Seq<char>, S)>, col: int, start: int, end: int) -> Seq<
    (Seq<char>, S, bool),
>
    decreases spans.len(),
{
    if spans.len() == 0 {
        Seq::empty()
    } else {
        span_segments(spans[0].0, spans[0].1, col, start, end) + highlight_from(
            spans.drop_first(),
            col + str_cols0(spans[0].0),
            start,
            end,
        )
    }
}

/// Total highlight columns of `spans`.
pub open spec fn spans_cols0<S>(spans: Seq<(Seq<char>, S)>) -> nat
    decreases spans.len(),
{
    if spans.len() == 0 {
        0
    } else {
        str_cols0(spans[0].0) + spans_cols0(spans.drop_first())
    }
}

/// Every span as one unselected segment.
pub open spec fn unselected<S>(spans: Seq<(Seq<char>, S)>) -> Seq<(Seq<char>, S, bool)> {
    spans.map_values(|p: (Seq<char>, S)| (p.0, p.1, false))
}

/// The highlighted segments of a line of styled spans: nothing is selected
/// when the range is empty, else each span is split at the range's bounds.
pub open spec fn highlighted<S>(spans: Seq<(Seq<char>, S)>, start: int, end: int) -> Seq<
    (Seq<char>, S, bool),
> {
    if start >= end {
        unselected(spans)
    } else {
        highlight_from(spans, 0, start, end)
    }
}

/// A piece of a highlighted line: its text, the style of the span it came
/// from, and whether it lies in the highlighted range (the caller patches
/// the highlight style onto those).
#[derive(Debug, Clone)]
pub struct HighlightSegment<S> {
    pub text: String,
    pub style: S,
    pub selected: bool,
}

/// The view of a span list.
pub open spec fn spans_view<S>(v: Seq<(String, S)>) -> Seq<(Seq<char>, S)> {
    v.map_values(|p: (String, S)| (p.0@, p.1))
}

/// The view of a segment list.
pub open spec fn segments_view<S>(v: Seq<HighlightSegment<S>>) -> Seq<(Seq<char>, S, bool)> {
    v.map_values(|g: HighlightSegment<S>| (g.text@, g.style, g.selected))
}

proof fn lemma_str_cols0_prefix(t: Seq<char>, i: int)
    requires
        0 <= i <= t.len(),
    ensures
        str_cols0(t.take(i)) <= str_cols0(t),
    decreases t.len() - i,
{
    if i < t.len() {
        lemma_str_cols0_prefix(t, i + 1);
        assert(t.take(i + 1).drop_last() =~= t.take(i));
    } else {
        assert(t.take(i) =~= t);
    }
}

/// Display width of `t` for highlighting (control characters count 0).
fn cols0_of(t: &Vec<char>) -> (w: usize)
    requires
        str_cols0(t@) <= usize::MAX,
    ensures
        w == str_cols0(t@),
{
    let mut i: usize = 0;
    let mut w: usize = 0;
    while i < t.len()
        invariant
            i <= t@.len(),
            w == str_cols0(t@.take(i as int)),
            str_cols0(t@) <= usize::MAX,
        decreases t@.len() - i,
    {
        proof {
            assert(t@.take(i + 1).drop_last() =~= t@.take(i as int));
            lemma_str_cols0_prefix(t@, i + 1);
        }
        let cw = match char_display_width(t[i]) {
            Some(x) => x,
            None => 0,
        };
        w = w + cw;
        i = i + 1;
    }
    proof {
        assert(t@.take(t@.len() as int) =~= t@);
    }
    w
}

/// Append `(text, style, selected)` when `text` is non-empty.
fn push_seg<S: Copy>(out: &mut Vec<HighlightSegment<S>>, text: &Vec<char>, style: S, selected: bool)
    ensures
        segments_view(final(out)@) == segments_view(old(out)@) + seg_if(text@, style, selected),
{
    let ghost o = segments_view(out@);
    if text.len() > 0 {
        out.push(HighlightSegment { text: string_of(text.as_slice()), style, selected });
        proof {
            assert(segments_view(out@) =~= o + seg_if(text@, style, selected));
        }
    } else {
        proof {
            assert(segments_view(out@) =~= o + seg_if(text@, style, selected));
        }
    }
}

/// Split the characters of `t`, which starts at column `col`, into the
/// parts before, inside and after `[start, end)`.
fn split_at_cols(t: &Vec<char>, col: usize, start: usize, end: usize) -> (r: (
    Vec<char>,
    Vec<char>,
    Vec<char>,
))
    requires
        col + str_cols0(t@) <= usize::MAX,
    ensures
        r.0@ == region_chars(t@, col as int, start as int, end as int, 0),
        r.1@ == region_chars(t@, col as int, start as int, end as int, 1),
        r.2@ == region_chars(t@, col as int, start as int, end as int, 2),
{
    let mut pre: Vec<char> = Vec::new();
    let mut sel: Vec<char> = Vec::new();
    let mut post: Vec<char> = Vec::new();
    let mut c: usize = col;
    let mut i: usize = 0;
    while i < t.len()
        invariant
            i <= t@.len(),
            col + str_cols0(t@) <= usize::MAX,
            c == col + str_cols0(t@.take(i as int)),
            pre@ == region_chars(t@.take(i as int), col as int, start as int, end as int, 0),
            sel@ == region_chars(t@.take(i as int), col as int, start as int, end as int, 1),
            post@ == region_chars(t@.take(i as int), col as int, start as int, end as int, 2),
        decreases t@.len() - i,
    {
        let ghost ti = t@.take(i as int);
        let ghost tj = t@.take(i + 1);
        proof {
            assert(tj.drop_last() =~= ti);
            assert(tj.last() == t@[i as int]);
            assert(tj.take(i as int) =~= ti);
            lemma_str_cols0_prefix(t@, i + 1);
        }
        let ch = t[i];
        if c < start {
            pre.push(ch);
        } else if c < end {
            sel.push(ch);
        } else {
            post.push(ch);
        }
        let w = match char_display_width(ch) {
            Some(x) => x,
            None => 0,
        };
        c = c + w;
        i = i + 1;
    }
    proof {
        assert(t@.take(t@.len() as int) =~= t@);
    }
    (pre, sel, post)
}

/// Mark the column range `[start_col, end_col)` of a line of styled spans:
/// each span wholly outside the range is kept as it is; a span that meets
/// it is split into its non-empty parts before, inside and after the range,
/// keeping its style, with the inside part marked selected. Columns are
/// counted with `UnicodeWidthChar::width`, control characters counting 0.
pub fn highlight_line_range<S: Copy>(spans: &Vec<(String, S)>, start_col: usize, end_col: usize) -> (r:
    Vec<HighlightSegment<S>>)
    requires
        spans_cols0(spans_view(spans@)) <= usize::MAX,
    ensures
        segments_view(r@) == highlighted(spans_view(spans@), start_col as int, end_col as int),
{
    let ghost sv = spans_view(spans@);
    let mut out: Vec<HighlightSegment<S>> = Vec::new();
    let n = spans.len();
    if start_col >= end_col {
        let mut i: usize = 0;
        while i < n
            invariant
                n == spans@.len(),
                sv == spans_view(spans@),
                i <= n,
                segments_view(out@) == unselected(sv.take(i as int)),
            decreases n - i,
        {
            let ghost o = segments_view(out@);
            let text = string_of(chars_of(spans[i].0.as_str()).as_slice());
            out.push(HighlightSegment { text, style: spans[i].1, selected: false });
            proof {
                assert(sv[i as int] == (spans@[i as int].0@, spans@[i as int].1));
                assert(sv.take(i + 1) =~= sv.take(i as int).push(sv[i as int]));
                assert(unselected(sv.take(i + 1)) =~= unselected(sv.take(i as int)).push(
                    (sv[i as int].0, sv[i as int].1, false),
                ));
                assert(segments_view(out@) =~= o.push((sv[i as int].0, sv[i as int].1, false)));
            }
            i = i + 1;
        }
        proof {
            assert(sv.take(n as int) =~= sv);
        }
        return out;
    }
    let mut col: usize = 0;
    let mut i: usize = 0;
    proof {
        assert(sv.skip(0) =~= sv);
    }
    while i < n
        invariant
            n == spans@.len(),
            sv == spans_view(spans@),
            i <= n,
            start_col < end_col,
            col + spans_cols0(sv.skip(i as int)) == spans_cols0(sv),
            spans_cols0(sv) <= usize::MAX,
            segments_view(out@) + highlight_from(sv.skip(i as int), col as int, start_col as int, end_col as int)
                == highlight_from(sv, 0, start_col as int, end_col as int),
        decreases n - i,
    {
        let ghost rest = sv.skip(i as int);
        let ghost o = segments_view(out@);
        proof {
            assert(rest[0] == sv[i as int]);
            assert(rest.drop_first() =~= sv.skip(i + 1));
        }
        let t = chars_of(spans[i].0.as_str());
        let st = spans[i].1;
        assert(t@ == rest[0].0);
        let w = cols0_of(&t);
        let e = col + w;
        if e <= start_col || col >= end_col {
            out.push(HighlightSegment { text: string_of(t.as_slice()), style: st, selected: false });
            proof {
                assert(segments_view(out@) =~= o + span_segments(t@, st, col as int, start_col as int, end_col as int));
            }
        } else {
            let (pre, sel, post) = split_at_cols(&t, col, start_col, end_col);
            push_seg(&mut out, &pre, st, false);
            push_seg(&mut out, &sel, st, true);
            push_seg(&mut out, &post, st, false);
        }
        proof {
            assert(segments_view(out@) + highlight_from(sv.skip(i + 1), e as int, start_col as int, end_col as int)
                =~= o + highlight_from(rest, col as int, start_col as int, end_col as int));
        }
        col = e;
        i = i + 1;
    }
    proof {
        assert(sv.skip(n as int) =~= Seq::<(Seq<char>, S)>::empty());
        assert(segments_view(out@) + highlight_from(sv.skip(n as int), col as int, start_col as int, end_col as int)
            =~= segments_view(out@));
    }
    out
}

/// The texts of `segs`, joined.
pub open spec fn segments_text<S>(segs: Seq<(Seq<char>, S, bool)>) -> Seq<char>
    decreases segs.len(),
{
    if segs.len() == 0 {
        Seq::empty()
    } else {
        segs[0].0 + segments_text(segs.drop_first())
    }
}

/// The texts of `spans`, joined.
pub open spec fn spans_text<S>(spans: Seq<(Seq<char>, S)>) -> Seq<char>
    decreases spans.len(),
{
    if spans.len() == 0 {
        Seq::empty()
    } else {
        spans[0].0 + spans_text(spans.drop_first())
    }
}

proof fn lemma_segments_text_concat<S>(a: Seq<(Seq<char>, S, bool)>, b: Seq<(Seq<char>, S, bool)>)
    ensures
        segments_text(a + b) == segments_text(a) + segments_text(b),
    decreases a.len(),
{
    if a.len() == 0 {
        assert(a + b =~= b);
        assert(segments_text(a) + segments_text(b) =~= segments_text(b));
    } else {
        assert((a + b).drop_first() =~= a.drop_first() + b);
        lemma_segments_text_concat(a.drop_first(), b);
        assert(segments_text(a + b) =~= segments_text(a) + segments_text(b));
    }
}

proof fn lemma_seg_if_text<S>(t: Seq<char>, st: S, sel: bool)
    ensures
        segments_text(seg_if(t, st, sel)) == t,
{
    reveal_with_fuel(segments_text, 2);
    if t.len() > 0 {
        assert(seq![(t, st, sel)].drop_first() =~= Seq::<(Seq<char>, S, bool)>::empty());
        assert(t + Seq::<char>::empty() =~= t);
    } else {
        assert(t =~= Seq::<char>::empty());
    }
}

/// Columns only grow along a span, so so does the part a character is in.
proof fn lemma_region_mono(t: Seq<char>, col: int, j: int, i: int, start: int, end: int)
    requires
        0 <= j <= i <= t.len(),
    ensures
        region_of(t, col, j, start, end) <= region_of(t, col, i, start, end),
{
    lemma_str_cols0_prefix(t.take(i), j);
    assert(t.take(i).take(j) =~= t.take(j));
}

/// No character of `t` is in a part above `k`, so those parts are empty.
proof fn lemma_region_empty_above(t: Seq<char>, col: int, start: int, end: int, k: int, r: int)
    requires
        forall|j: int| 0 <= j < t.len() ==> region_of(t, col, j, start, end) <= k,
        r > k,
    ensures
        region_chars(t, col, start, end, r) == Seq::<char>::empty(),
    decreases t.len(),
{
    if t.len() > 0 {
        let u = t.drop_last();
        assert forall|j: int| 0 <= j < u.len() implies region_of(u, col, j, start, end) <= k by {
            assert(u.take(j) =~= t.take(j));
            assert(region_of(t, col, j, start, end) <= k);
        }
        lemma_region_empty_above(u, col, start, end, k, r);
        assert(region_of(t, col, t.len() - 1, start, end) <= k);
    }
}

/// The three parts of a span, in order, are the span.
proof fn lemma_regions_partition(t: Seq<char>, col: int, start: int, end: int)
    ensures
        region_chars(t, col, start, end, 0) + region_chars(t, col, start, end, 1) + region_chars(
            t,
            col,
            start,
            end,
            2,
        ) == t,
    decreases t.len(),
{
    if t.len() == 0 {
        assert(Seq::<char>::empty() + Seq::<char>::empty() + Seq::<char>::empty() =~= t);
    } else {
        let u = t.drop_last();
        let n = t.len() - 1;
        lemma_regions_partition(u, col, start, end);
        let k = region_of(t, col, n, start, end);
        assert forall|j: int| 0 <= j < u.len() implies region_of(u, col, j, start, end) <= k by {
            assert(u.take(j) =~= t.take(j));
            lemma_region_mono(t, col, j, n, start, end);
        }
        if k == 0 {
            lemma_region_empty_above(u, col, start, end, 0, 1);
            lemma_region_empty_above(u, col, start, end, 0, 2);
        } else if k == 1 {
            lemma_region_empty_above(u, col, start, end, 1, 2);
        }
        assert(u.push(t.last()) =~= t);
        assert(region_chars(t, col, start, end, 0) + region_chars(t, col, start, end, 1)
            + region_chars(t, col, start, end, 2) =~= t);
    }
}

proof fn lemma_span_segments_text<S>(t: Seq<char>, st: S, col: int, start: int, end: int)
    ensures
        segments_text(span_segments(t, st, col, start, end)) == t,
{
    let e = col + str_cols0(t);
    if e <= start || col >= end {
        lemma_seg_if_text(t, st, false);
        if t.len() == 0 {
            reveal_with_fuel(segments_text, 2);
            assert(seq![(t, st, false)].drop_first() =~= Seq::<(Seq<char>, S, bool)>::empty());
            assert(t + Seq::<char>::empty() =~= t);
        } else {
            assert(seg_if(t, st, false) == seq![(t, st, false)]);
        }
    } else {
        let a = seg_if(region_chars(t, col, start, end, 0), st, false);
        let b = seg_if(region_chars(t, col, start, end, 1), st, true);
        let c = seg_if(region_chars(t, col, start, end, 2), st, false);
        lemma_segments_text_concat(a + b, c);
        lemma_segments_text_concat(a, b);
        lemma_seg_if_text(region_chars(t, col, start, end, 0), st, false);
        lemma_seg_if_text(region_chars(t, col, start, end, 1), st, true);
        lemma_seg_if_text(region_chars(t, col, start, end, 2), st, false);
        lemma_regions_partition(t, col, start, end);
    }
}

proof fn lemma_highlight_from_text<S>(spans: Seq<(Seq<char>, S)>, col: int, start: int, end: int)
    ensures
        segments_text(highlight_from(spans, col, start, end)) == spans_text(spans),
    decreases spans.len(),
{
    if spans.len() > 0 {
        let head = span_segments(spans[0].0, spans[0].1, col, start, end);
        let tail = highlight_from(spans.drop_first(), col + str_cols0(spans[0].0), start, end);
        lemma_segments_text_concat(head, tail);
        lemma_span_segments_text(spans[0].0, spans[0].1, col, start, end);
        lemma_highlight_from_text(spans.drop_first(), col + str_cols0(spans[0].0), start, end);
    }
}

proof fn lemma_unselected_text<S>(spans: Seq<(Seq<char>, S)>)
    ensures
        segments_text(unselected(spans)) == spans_text(spans),
    decreases spans.len(),
{
    if spans.len() > 0 {
        assert(unselected(spans).drop_first() =~= unselected(spans.drop_first()));
        lemma_unselected_text(spans.drop_first());
    }
}

/// Highlighting never loses, duplicates or reorders text: the segments'
/// texts, joined, are the spans' texts, joined.
pub proof fn law_highlight_keeps_text<S>(spans: Seq<(Seq<char>, S)>, start: int, end: int)
    ensures
        segments_text(highlighted(spans, start, end)) == spans_text(spans),
{
    if start >= end {
        lemma_unselected_text(spans);
    } else {
        lemma_highlight_from_text(spans, 0, start, end);
    }
}

} // verus!
