//! The prompt editor: a UTF-8 buffer with a byte-offset cursor, readline-style
//! editing commands, a one-entry kill ring, and the autocomplete list shown
//! under it.

use vstd::prelude::*;

use crate::text::{
    byte_len, byte_offset, char_to_lowercase, char_to_uppercase, lower_first, upper_chars,
    upper_first, char_cols, char_cols_of, chars_of, cols_between, index_at, index_of_offset, total_cols,
    is_boundary, is_word, is_word_char, lemma_byte_offset_mono, lemma_byte_offset_prefix,
    lemma_index_at, lemma_str_cols_concat, lemma_str_cols_subrange, offset_of, str_cols,
    str_byte_len, string_byte_len, string_of, utf8_len,
};

verus! {

// ---------------------------------------------------------------------------
// AutocompleteEntry
// ---------------------------------------------------------------------------

/// One row of the autocomplete dropdown.
#[derive(Debug, Clone, PartialEq, Eq)]
pub struct AutocompleteEntry {
    /// Display name, e.g. "/session fork".
    pub name: String,
    /// Short description, e.g. "Fork current session".
    pub description: String,
    /// Source badge, e.g. "[builtin]", "[user]", "[plugin]".
    pub source: String,
}

impl AutocompleteEntry {
    pub fn new(name: &str, description: &str, source: &str) -> (e: Self)
        ensures
            e.name@ == name@,
            e.description@ == description@,
            e.source@ == source@,
    {
        AutocompleteEntry {
            name: name.to_owned(),
            description: description.to_owned(),
            source: source.to_owned(),
        }
    }
}

// ---------------------------------------------------------------------------
// AutocompleteState
// ---------------------------------------------------------------------------

/// The dropdown's entries, which one is selected, and whether it is shown.
#[derive(Debug, Clone)]
pub struct AutocompleteState {
    pub entries: Vec<AutocompleteEntry>,
    pub selected: usize,
    pub visible: bool,
}

impl AutocompleteState {
    pub fn new() -> (s: Self)
        ensures
            s.entries@.len() == 0,
            s.selected == 0,
            !s.visible,
    {
        AutocompleteState { entries: Vec::new(), selected: 0, visible: false }
    }

    /// Replace the entries, select the first, and show the list when it is non-empty.
    pub fn show(&mut self, entries: Vec<AutocompleteEntry>)
        ensures
            final(self).entries@ == entries@,
            final(self).selected == 0,
            final(self).visible == (entries@.len() > 0),
    {
        self.entries = entries;
        self.selected = 0;
        self.visible = self.entries.len() > 0;
    }

    pub fn hide_dropdown(&mut self)
        ensures
            final(self).entries == old(self).entries,
            final(self).selected == old(self).selected,
            !final(self).visible,
    {
        self.visible = false;
    }

    /// Move the selection down, wrapping at the end.
    pub fn next(&mut self)
        requires
            old(self).entries@.len() > 0 ==> old(self).selected < usize::MAX,
        ensures
            final(self).entries == old(self).entries,
            final(self).visible == old(self).visible,
            final(self).selected == if old(self).entries@.len() == 0 {
                old(self).selected as int
            } else {
                (old(self).selected + 1) % (old(self).entries@.len() as int)
            },
    {
        if self.entries.len() == 0 {
            return;
        }
        self.selected = (self.selected + 1) % self.entries.len();
    }

    /// Move the selection up, wrapping at the start.
    pub fn prev(&mut self)
        ensures
            final(self).entries == old(self).entries,
            final(self).visible == old(self).visible,
            final(self).selected == if old(self).entries@.len() == 0 {
                old(self).selected as int
            } else if old(self).selected == 0 {
                old(self).entries@.len() - 1
            } else {
                old(self).selected - 1
            },
    {
        if self.entries.len() == 0 {
            return;
        }
        if self.selected == 0 {
            self.selected = self.entries.len() - 1;
        } else {
            self.selected = self.selected - 1;
        }
    }

    /// The selected entry, when the list is shown and the selection is in range.
    pub fn selected_entry(&self) -> (r: Option<&AutocompleteEntry>)
        ensures
            r == if self.visible && self.selected < self.entries@.len() {
                Some(&self.entries@[self.selected as int])
            } else {
                None
            },
    {
        if self.visible && self.selected < self.entries.len() {
            Some(&self.entries[self.selected])
        } else {
            None
        }
    }
}


// ---------------------------------------------------------------------------
// Lines and words over a character sequence
// ---------------------------------------------------------------------------

/// Index just after the last newline before index `k`, or 0.
pub open spec fn line_start(s: Seq<char>, k: int) -> int
    decreases k,
{
    if k <= 0 {
        0
    } else if s[k - 1] == '\n' {
        k
    } else {
        line_start(s, k - 1)
    }
}

/// Index of the first newline at or after index `k`, or the length of `s`.
pub open spec fn line_end(s: Seq<char>, k: int) -> int
    decreases s.len() - k,
{
    if k >= s.len() {
        s.len() as int
    } else if s[k] == '\n' {
        k
    } else {
        line_end(s, k + 1)
    }
}

/// Number of newlines in `s`.
pub open spec fn count_newlines(s: Seq<char>) -> nat
    decreases s.len(),
{
    if s.len() == 0 {
        0
    } else {
        count_newlines(s.drop_last()) + if s.last() == '\n' {
            1nat
        } else {
            0nat
        }
    }
}

/// A sequence has no more newlines than characters.
pub proof fn lemma_count_newlines_le(s: Seq<char>)
    ensures
        count_newlines(s) <= s.len(),
    decreases s.len(),
{
    if s.len() > 0 {
        lemma_count_newlines_le(s.drop_last());
    }
}

/// Walk back from `k` over characters that are not word characters.
pub open spec fn skip_back_nonword(s: Seq<char>, k: int) -> int
    decreases k,
{
    if k <= 0 {
        0
    } else if is_word(s[k - 1]) {
        k
    } else {
        skip_back_nonword(s, k - 1)
    }
}

/// Walk back from `k` over word characters.
pub open spec fn skip_back_word(s: Seq<char>, k: int) -> int
    decreases k,
{
    if k <= 0 {
        0
    } else if !is_word(s[k - 1]) {
        k
    } else {
        skip_back_word(s, k - 1)
    }
}

/// Start of the word before index `k`: skip non-word characters, then the word.
/// When no word character precedes `k`, `k` itself.
pub open spec fn word_start_back(s: Seq<char>, k: int) -> int {
    let j = skip_back_nonword(s, k);
    if j == 0 {
        k
    } else {
        skip_back_word(s, j)
    }
}

/// Walk forward from `k` over characters that are not word characters.
pub open spec fn skip_fwd_nonword(s: Seq<char>, k: int) -> int
    decreases s.len() - k,
{
    if k >= s.len() {
        s.len() as int
    } else if is_word(s[k]) {
        k
    } else {
        skip_fwd_nonword(s, k + 1)
    }
}

/// Walk forward from `k` over word characters.
pub open spec fn skip_fwd_word(s: Seq<char>, k: int) -> int
    decreases s.len() - k,
{
    if k >= s.len() {
        s.len() as int
    } else if !is_word(s[k]) {
        k
    } else {
        skip_fwd_word(s, k + 1)
    }
}

/// End of the word after index `k`: skip non-word characters, then the word.
pub open spec fn word_end_fwd(s: Seq<char>, k: int) -> int {
    skip_fwd_word(s, skip_fwd_nonword(s, k))
}

proof fn lemma_line_start_bounds(s: Seq<char>, k: int)
    requires
        0 <= k <= s.len(),
    ensures
        0 <= line_start(s, k) <= k,
        line_start(s, k) > 0 ==> s[line_start(s, k) - 1] == '\n',
        forall|i: int| line_start(s, k) <= i < k ==> s[i] != '\n',
    decreases k,
{
    if k > 0 && s[k - 1] != '\n' {
        lemma_line_start_bounds(s, k - 1);
    }
}

proof fn lemma_line_end_bounds(s: Seq<char>, k: int)
    requires
        0 <= k <= s.len(),
    ensures
        k <= line_end(s, k) <= s.len(),
        line_end(s, k) < s.len() ==> s[line_end(s, k)] == '\n',
        forall|i: int| k <= i < line_end(s, k) ==> s[i] != '\n',
    decreases s.len() - k,
{
    if k < s.len() && s[k] != '\n' {
        lemma_line_end_bounds(s, k + 1);
    }
}

proof fn lemma_skip_back_bounds(s: Seq<char>, k: int)
    requires
        0 <= k <= s.len(),
    ensures
        0 <= skip_back_nonword(s, k) <= k,
        0 <= skip_back_word(s, k) <= k,
        0 <= word_start_back(s, k) <= k,
    decreases k,
{
    if k > 0 {
        lemma_skip_back_bounds(s, k - 1);
    }
    let j = skip_back_nonword(s, k);
    if j != 0 {
        lemma_skip_back_word_bounds(s, j);
    }
}

proof fn lemma_skip_back_word_bounds(s: Seq<char>, k: int)
    requires
        0 <= k <= s.len(),
    ensures
        0 <= skip_back_word(s, k) <= k,
    decreases k,
{
    if k > 0 {
        lemma_skip_back_word_bounds(s, k - 1);
    }
}

proof fn lemma_skip_fwd_bounds(s: Seq<char>, k: int)
    requires
        0 <= k <= s.len(),
    ensures
        k <= skip_fwd_nonword(s, k) <= s.len(),
        k <= skip_fwd_word(s, k) <= s.len(),
        skip_fwd_nonword(s, k) < s.len() ==> is_word(s[skip_fwd_nonword(s, k)]),
    decreases s.len() - k,
{
    if k < s.len() {
        lemma_skip_fwd_bounds(s, k + 1);
    }
}

fn find_line_start(v: &Vec<char>, k: usize) -> (r: usize)
    requires
        k <= v@.len(),
    ensures
        r == line_start(v@, k as int),
        r <= k,
{
    let mut i = k;
    while i > 0 && v[i - 1] != '\n'
        invariant
            i <= k <= v@.len(),
            line_start(v@, i as int) == line_start(v@, k as int),
        decreases i,
    {
        i = i - 1;
    }
    i
}

/// The line (0-based) and display column of the character index `k` of `s`:
/// the newlines before it, and the columns from the start of its line to it.
pub open spec fn line_and_col(s: Seq<char>, k: int) -> (int, int) {
    (count_newlines(s.subrange(0, k)) as int, str_cols(s.subrange(line_start(s, k), k)) as int)
}

/// Line index and display column of the byte offset `byte_pos` in `text`
/// (clamped to the end of the text).
pub fn cursor_line_and_col(text: &str, byte_pos: usize) -> (r: (usize, usize))
    requires
        is_boundary(
            text@,
            if byte_pos <= byte_len(text@) {
                byte_pos as int
            } else {
                byte_len(text@) as int
            },
        ),
    ensures
        (r.0 as int, r.1 as int) == line_and_col(
            text@,
            index_at(
                text@,
                if byte_pos <= byte_len(text@) {
                    byte_pos as int
                } else {
                    byte_len(text@) as int
                },
            ),
        ),
{
    let chars = chars_of(text);
    let total = str_byte_len(text);
    let _ = total_cols(&chars);
    let clamped = if byte_pos <= total {
        byte_pos
    } else {
        total
    };
    let k = index_of_offset(&chars, clamped);
    let mut i: usize = 0;
    let mut line: usize = 0;
    while i < k
        invariant
            k <= chars@.len(),
            i <= k,
            line == count_newlines(chars@.subrange(0, i as int)),
            line <= i,
        decreases k - i,
    {
        proof {
            assert(chars@.subrange(0, i + 1).drop_last() =~= chars@.subrange(0, i as int));
        }
        if chars[i] == '\n' {
            line = line + 1;
        }
        i = i + 1;
    }
    let ls = find_line_start(&chars, k);
    proof {
        lemma_str_cols_subrange(chars@, ls as int, k as int);
    }
    let col = cols_between(&chars, ls, k);
    (line, col)
}

fn find_line_end(v: &Vec<char>, k: usize) -> (r: usize)
    requires
        k <= v@.len(),
    ensures
        r == line_end(v@, k as int),
        k <= r <= v@.len(),
{
    let n = v.len();
    let mut i = k;
    while i < n && v[i] != '\n'
        invariant
            n == v@.len(),
            k <= i <= n,
            line_end(v@, i as int) == line_end(v@, k as int),
        decreases n - i,
    {
        i = i + 1;
    }
    i
}

fn find_word_start_back(v: &Vec<char>, k: usize) -> (r: usize)
    requires
        k <= v@.len(),
    ensures
        r == word_start_back(v@, k as int),
        r <= k,
{
    let mut i = k;
    while i > 0 && !is_word_char(v[i - 1])
        invariant
            i <= k <= v@.len(),
            skip_back_nonword(v@, i as int) == skip_back_nonword(v@, k as int),
        decreases i,
    {
        i = i - 1;
    }
    if i == 0 {
        return k;
    }
    let ghost j = i;
    while i > 0 && is_word_char(v[i - 1])
        invariant
            i <= j <= k <= v@.len(),
            j == skip_back_nonword(v@, k as int),
            skip_back_word(v@, i as int) == skip_back_word(v@, j as int),
        decreases i,
    {
        i = i - 1;
    }
    i
}

fn find_word_end_fwd(v: &Vec<char>, k: usize) -> (r: usize)
    requires
        k <= v@.len(),
    ensures
        r == word_end_fwd(v@, k as int),
        k <= r <= v@.len(),
{
    let n = v.len();
    let mut i = k;
    while i < n && !is_word_char(v[i])
        invariant
            n == v@.len(),
            k <= i <= n,
            skip_fwd_nonword(v@, i as int) == skip_fwd_nonword(v@, k as int),
        decreases n - i,
    {
        i = i + 1;
    }
    let ghost j = i;
    while i < n && is_word_char(v[i])
        invariant
            n == v@.len(),
            k <= j <= i <= n,
            j == skip_fwd_nonword(v@, k as int),
            skip_fwd_word(v@, i as int) == skip_fwd_word(v@, j as int),
        decreases n - i,
    {
        i = i + 1;
    }
    i
}

fn find_skip_fwd_nonword(v: &Vec<char>, k: usize) -> (r: usize)
    requires
        k <= v@.len(),
    ensures
        r == skip_fwd_nonword(v@, k as int),
        k <= r <= v@.len(),
{
    let n = v.len();
    let mut i = k;
    while i < n && !is_word_char(v[i])
        invariant
            n == v@.len(),
            k <= i <= n,
            skip_fwd_nonword(v@, i as int) == skip_fwd_nonword(v@, k as int),
        decreases n - i,
    {
        i = i + 1;
    }
    i
}

fn find_skip_fwd_word(v: &Vec<char>, k: usize) -> (r: usize)
    requires
        k <= v@.len(),
    ensures
        r == skip_fwd_word(v@, k as int),
        k <= r <= v@.len(),
{
    let n = v.len();
    let mut i = k;
    while i < n && is_word_char(v[i])
        invariant
            n == v@.len(),
            k <= i <= n,
            skip_fwd_word(v@, i as int) == skip_fwd_word(v@, k as int),
        decreases n - i,
    {
        i = i + 1;
    }
    i
}

/// `s` with `s[ws..e]` replaced by `word`.
pub open spec fn replace_range(s: Seq<char>, ws: int, e: int, word: Seq<char>) -> Seq<char> {
    s.subrange(0, ws) + word + s.subrange(e, s.len() as int)
}

/// The word `s[ws..e]` with each character replaced by the first character of its uppercase mapping.
pub open spec fn upcased(s: Seq<char>, ws: int, e: int) -> Seq<char> {
    s.subrange(ws, e).map_values(|c: char| upper_first(c))
}

/// The word `s[ws..e]` with each character replaced by the first character of its lowercase mapping.
pub open spec fn downcased(s: Seq<char>, ws: int, e: int) -> Seq<char> {
    s.subrange(ws, e).map_values(|c: char| lower_first(c))
}

/// The word `s[ws..e]` capitalized: the full uppercase mapping of its first
/// character, then the rest lowercased character by character.
pub open spec fn capitalized(s: Seq<char>, ws: int, e: int) -> Seq<char> {
    upper_chars(s[ws]) + s.subrange(ws + 1, e).map_values(|c: char| lower_first(c))
}

/// Map `v[i..j]` through `first char of to_uppercase` (or lowercase), appending to `out`.
fn push_recased(out: &mut Vec<char>, v: &Vec<char>, i: usize, j: usize, upper: bool)
    requires
        i <= j <= v@.len(),
    ensures
        upper ==> final(out)@ == old(out)@ + v@.subrange(i as int, j as int).map_values(
            |c: char| upper_first(c),
        ),
        !upper ==> final(out)@ == old(out)@ + v@.subrange(i as int, j as int).map_values(
            |c: char| lower_first(c),
        ),
{
    let mut t = i;
    while t < j
        invariant
            i <= t <= j <= v@.len(),
            upper ==> out@ == old(out)@ + v@.subrange(i as int, t as int).map_values(
                |c: char| upper_first(c),
            ),
            !upper ==> out@ == old(out)@ + v@.subrange(i as int, t as int).map_values(
                |c: char| lower_first(c),
            ),
        decreases j - t,
    {
        let c = v[t];
        let mapped = if upper {
            char_to_uppercase(c)
        } else {
            char_to_lowercase(c)
        };
        out.push(mapped[0]);
        proof {
            assert(v@.subrange(i as int, t + 1) =~= v@.subrange(i as int, t as int).push(c));
            assert(v@.subrange(i as int, t + 1).map_values(|c: char| upper_first(c))
                =~= v@.subrange(i as int, t as int).map_values(|c: char| upper_first(c)).push(
                upper_first(c),
            ));
            assert(v@.subrange(i as int, t + 1).map_values(|c: char| lower_first(c))
                =~= v@.subrange(i as int, t as int).map_values(|c: char| lower_first(c)).push(
                lower_first(c),
            ));
        }
        t = t + 1;
    }
}

/// Word spans `(start, end)` found scanning left to right from index `i`; `cur`
/// is the start of the word being read, if any.
pub open spec fn spans_scan(s: Seq<char>, i: int, cur: Option<int>) -> Seq<(int, int)>
    decreases s.len() - i,
{
    if i >= s.len() {
        match cur {
            Some(st) => seq![(st, s.len() as int)],
            None => Seq::empty(),
        }
    } else if is_word(s[i]) {
        spans_scan(
            s,
            i + 1,
            if cur is Some {
                cur
            } else {
                Some(i)
            },
        )
    } else {
        match cur {
            Some(st) => seq![(st, i)] + spans_scan(s, i + 1, None),
            None => spans_scan(s, i + 1, None),
        }
    }
}

/// The maximal runs of word characters in `s`, as `(start, end)` index pairs.
pub open spec fn word_spans(s: Seq<char>) -> Seq<(int, int)> {
    spans_scan(s, 0, None)
}

/// Index of the first span starting at or after `k` (searching from `i`), else
/// the number of spans: the number of words that start before `k`.
pub open spec fn first_start_from(w: Seq<(int, int)>, k: int, i: int) -> int
    decreases w.len() - i,
{
    if i >= w.len() {
        w.len() as int
    } else if w[i].0 >= k {
        i
    } else {
        first_start_from(w, k, i + 1)
    }
}

/// Which two words `transpose_words` swaps, as indices into the span list:
/// the last word starting before the cursor `k` and the word after it; the
/// last two when every word starts before the cursor (the cursor is in or past
/// the last word), the first two when none does.
pub open spec fn swap_pair(w: Seq<(int, int)>, k: int) -> (int, int) {
    let c = first_start_from(w, k, 0);
    if c >= w.len() {
        (w.len() - 2, w.len() - 1)
    } else if c == 0 {
        (0, 1)
    } else {
        (c - 1, c)
    }
}

/// `s` with the ranges `a` and `b` (`a` first) exchanged.
pub open spec fn words_swapped(s: Seq<char>, a: (int, int), b: (int, int)) -> Seq<char> {
    s.subrange(0, a.0) + s.subrange(b.0, b.1) + s.subrange(a.1, b.0) + s.subrange(a.0, a.1)
        + s.subrange(b.1, s.len() as int)
}

/// The spans found from `i` lie at or after the scan's start and are ordered.
pub open spec fn spans_ordered(w: Seq<(int, int)>, lo: int, n: int) -> bool {
    &&& forall|m: int| 0 <= m < w.len() ==> lo <= #[trigger] w[m].0 < w[m].1 <= n
    &&& forall|m: int| 0 <= m < w.len() - 1 ==> #[trigger] w[m].1 <= w[m + 1].0
}

proof fn lemma_spans_scan(s: Seq<char>, i: int, cur: Option<int>)
    requires
        0 <= i <= s.len(),
        cur matches Some(st) ==> 0 <= st < i,
    ensures
        spans_ordered(
            spans_scan(s, i, cur),
            match cur {
                Some(st) => st,
                None => i,
            },
            s.len() as int,
        ),
    decreases s.len() - i,
{
    let w = spans_scan(s, i, cur);
    let n = s.len() as int;
    if i >= s.len() {
        match cur {
            Some(st) => {
                assert(w == seq![(st, n)]);
            },
            None => {
                assert(w.len() == 0);
            },
        }
    } else if is_word(s[i]) {
        let c2 = if cur is Some {
            cur
        } else {
            Some(i)
        };
        assert(w == spans_scan(s, i + 1, c2));
        lemma_spans_scan(s, i + 1, c2);
    } else {
        lemma_spans_scan(s, i + 1, None);
        let r = spans_scan(s, i + 1, None);
        match cur {
            Some(st) => {
                assert(w == seq![(st, i)] + r);
                assert forall|m: int| 0 <= m < w.len() - 1 implies #[trigger] w[m].1 <= w[m + 1].0 by {
                    if m > 0 {
                        assert(w[m] == r[m - 1]);
                        assert(w[m + 1] == r[m]);
                    } else {
                        assert(w[1] == r[0]);
                    }
                }
                assert forall|m: int| 0 <= m < w.len() implies st <= #[trigger] w[m].0 < w[m].1 <= n by {
                    if m > 0 {
                        assert(w[m] == r[m - 1]);
                    }
                }
            },
            None => {
                assert(w == r);
            },
        }
    }
}

proof fn lemma_first_start_from(w: Seq<(int, int)>, k: int, i: int)
    requires
        0 <= i <= w.len(),
    ensures
        i <= first_start_from(w, k, i) <= w.len(),
    decreases w.len() - i,
{
    if i < w.len() && w[i].0 < k {
        lemma_first_start_from(w, k, i + 1);
    }
}

proof fn lemma_cols_five(a: Seq<char>, b: Seq<char>, c: Seq<char>, d: Seq<char>, e: Seq<char>)
    ensures
        str_cols(a + b + c + d + e) == str_cols(a) + str_cols(b) + str_cols(c) + str_cols(d)
            + str_cols(e),
{
    lemma_str_cols_concat(a, b);
    lemma_str_cols_concat(a + b, c);
    lemma_str_cols_concat(a + b + c, d);
    lemma_str_cols_concat(a + b + c + d, e);
}

/// Exchanging two ranges keeps the column total.
proof fn lemma_swap_cols(s: Seq<char>, t: Seq<char>, s1: int, e1: int, s2: int, e2: int)
    requires
        0 <= s1 <= e1 <= s2 <= e2 <= s.len(),
        t == s.subrange(0, s1) + s.subrange(s2, e2) + s.subrange(e1, s2) + s.subrange(s1, e1)
            + s.subrange(e2, s.len() as int),
    ensures
        t == words_swapped(s, (s1, e1), (s2, e2)),
        str_cols(t) == str_cols(s),
        str_cols(t.subrange(0, e2)) <= str_cols(t),
        e2 <= t.len(),
{
    let n = s.len() as int;
    lemma_cols_five(
        s.subrange(0, s1),
        s.subrange(s2, e2),
        s.subrange(e1, s2),
        s.subrange(s1, e1),
        s.subrange(e2, n),
    );
    lemma_cols_five(
        s.subrange(0, s1),
        s.subrange(s1, e1),
        s.subrange(e1, s2),
        s.subrange(s2, e2),
        s.subrange(e2, n),
    );
    assert(s =~= s.subrange(0, s1) + s.subrange(s1, e1) + s.subrange(e1, s2) + s.subrange(s2, e2)
        + s.subrange(e2, n));
    assert(t.len() == s.len());
    lemma_str_cols_subrange(t, 0, e2);
}

/// Pick the pair of word indices that `transpose_words` swaps.
fn choose_swap_pair(words: &Vec<(usize, usize)>, k: usize) -> (r: (usize, usize))
    requires
        words@.len() >= 2,
    ensures
        r.0 as int == swap_pair(spans_view(words@), k as int).0,
        r.1 as int == swap_pair(spans_view(words@), k as int).1,
        r.1 == r.0 + 1,
        r.1 < words@.len(),
{
    let ghost w = spans_view(words@);
    let count = words.len();
    proof {
        assert forall|m: int| 0 <= m < count implies words@[m].0 == w[m].0 && words@[m].1
            == w[m].1 by {
            assert(w[m] == (words@[m].0 as int, words@[m].1 as int));
        }
        assert(w.last() == w[count - 1]);
    }
    let mut c: usize = 0;
    while c < count && words[c].0 < k
        invariant
            c <= count,
            count == words@.len(),
            count == w.len(),
            forall|m: int| 0 <= m < count ==> words@[m].0 == w[m].0 && words@[m].1 == w[m].1,
            first_start_from(w, k as int, c as int) == first_start_from(w, k as int, 0),
        decreases count - c,
    {
        c = c + 1;
    }
    if c >= count {
        (count - 2, count - 1)
    } else if c == 0 {
        (0, 1)
    } else {
        (c - 1, c)
    }
}

/// Exec form of an optional index, seen as an integer.
pub open spec fn opt_int(o: Option<usize>) -> Option<int> {
    match o {
        Some(x) => Some(x as int),
        None => None,
    }
}

pub open spec fn spans_view(v: Seq<(usize, usize)>) -> Seq<(int, int)> {
    v.map_values(|p: (usize, usize)| (p.0 as int, p.1 as int))
}

/// Collect the word spans of `v`.
fn collect_word_spans(v: &Vec<char>) -> (r: Vec<(usize, usize)>)
    ensures
        spans_view(r@) == word_spans(v@),
{
    let n = v.len();
    let mut spans: Vec<(usize, usize)> = Vec::new();
    let mut cur: Option<usize> = None;
    let mut i: usize = 0;
    while i < n
        invariant
            n == v@.len(),
            i <= n,
            cur matches Some(st) ==> st < i,
            spans_view(spans@) + spans_scan(v@, i as int, opt_int(cur)) == word_spans(v@),
        decreases n - i,
    {
        let ghost sp0 = spans@;
        let ghost cur0 = cur;
        if is_word_char(v[i]) {
            if cur.is_none() {
                cur = Some(i);
            }
            proof {
                assert(spans_scan(v@, i as int, opt_int(cur0)) == spans_scan(
                    v@,
                    i + 1,
                    opt_int(cur),
                ));
            }
        } else {
            if let Some(st) = cur {
                spans.push((st, i));
                cur = None;
                proof {
                    assert(spans_view(spans@) =~= spans_view(sp0).push((st as int, i as int)));
                    assert(spans_scan(v@, i as int, opt_int(cur0)) == seq![(st as int, i as int)]
                        + spans_scan(v@, i + 1, None));
                    assert(spans_view(spans@) + spans_scan(v@, i + 1, None) =~= spans_view(sp0)
                        + spans_scan(v@, i as int, opt_int(cur0)));
                }
            } else {
                proof {
                    assert(spans_scan(v@, i as int, None) == spans_scan(v@, i + 1, None));
                }
            }
        }
        i = i + 1;
    }
    let ghost sp1 = spans@;
    if let Some(st) = cur {
        spans.push((st, n));
        proof {
            assert(spans_view(spans@) =~= spans_view(sp1).push((st as int, n as int)));
            assert(spans_scan(v@, n as int, opt_int(cur)) == seq![(st as int, n as int)]);
            assert(spans_view(spans@) =~= spans_view(sp1) + spans_scan(v@, n as int, opt_int(cur)));
        }
    } else {
        proof {
            assert(spans_view(sp1) + spans_scan(v@, n as int, None) =~= spans_view(sp1));
        }
    }
    spans
}

/// Append `v[i..j]` to `out`.
fn push_range(out: &mut Vec<char>, v: &Vec<char>, i: usize, j: usize)
    requires
        i <= j <= v@.len(),
    ensures
        final(out)@ == old(out)@ + v@.subrange(i as int, j as int),
{
    let mut t = i;
    while t < j
        invariant
            i <= t <= j <= v@.len(),
            out@ == old(out)@ + v@.subrange(i as int, t as int),
        decreases j - t,
    {
        out.push(v[t]);
        proof {
            assert(v@.subrange(i as int, t + 1) =~= v@.subrange(i as int, t as int).push(v@[t as int]));
        }
        t = t + 1;
    }
}


/// Index within `s[i..end]` where a column count starting at `acc` first reaches
/// `col`; `end` when it never does before the end.
pub open spec fn col_index(s: Seq<char>, i: int, end: int, col: int, acc: int) -> int
    decreases end - i,
{
    if i >= end {
        end
    } else if acc >= col {
        i
    } else {
        col_index(s, i + 1, end, col, acc + char_cols(s[i]))
    }
}

proof fn lemma_col_index_bounds(s: Seq<char>, i: int, end: int, col: int, acc: int)
    requires
        i <= end,
    ensures
        i <= col_index(s, i, end, col, acc) <= end,
    decreases end - i,
{
    if i < end && acc < col {
        lemma_col_index_bounds(s, i + 1, end, col, acc + char_cols(s[i]));
    }
}

/// Byte position in the line `v[start..end]` at display column `col`, clamped to
/// the end of the line.
fn pos_at_col(v: &Vec<char>, start: usize, end: usize, col: usize) -> (r: usize)
    requires
        start <= end <= v@.len(),
        str_cols(v@) <= usize::MAX,
    ensures
        r == col_index(v@, start as int, end as int, col as int, 0),
        start <= r <= end,
{
    let mut i = start;
    let mut acc: usize = 0;
    proof {
        assert(v@.subrange(start as int, start as int) =~= Seq::<char>::empty());
    }
    while i < end
        invariant
            start <= i <= end <= v@.len(),
            str_cols(v@) <= usize::MAX,
            acc == str_cols(v@.subrange(start as int, i as int)),
            col_index(v@, i as int, end as int, col as int, acc as int) == col_index(
                v@,
                start as int,
                end as int,
                col as int,
                0,
            ),
        decreases end - i,
    {
        if acc >= col {
            proof {
                lemma_col_index_bounds(v@, i as int, end as int, col as int, acc as int);
            }
            return i;
        }
        proof {
            assert(v@.subrange(start as int, i + 1).drop_last() =~= v@.subrange(
                start as int,
                i as int,
            ));
            lemma_str_cols_subrange(v@, start as int, i + 1);
        }
        acc = acc + char_cols_of(v[i]);
        i = i + 1;
    }
    i
}

// ---------------------------------------------------------------------------
// InputBoxState
// ---------------------------------------------------------------------------

/// `a - b`, or 0 when `b > a` (`usize::saturating_sub`).
pub open spec fn sat_sub(a: int, b: int) -> int {
    if a >= b {
        a - b
    } else {
        0
    }
}

/// Removing a range of characters never adds columns.
proof fn lemma_cols_remove_range(s: Seq<char>, i: int, j: int)
    requires
        0 <= i <= j <= s.len(),
    ensures
        str_cols(s.subrange(0, i) + s.subrange(j, s.len() as int)) + str_cols(s.subrange(i, j))
            == str_cols(s),
{
    lemma_str_cols_subrange(s, i, j);
    lemma_str_cols_concat(s.subrange(0, i), s.subrange(j, s.len() as int));
}

/// Inserting a run of characters adds its columns.
proof fn lemma_cols_insert_seq(s: Seq<char>, k: int, t: Seq<char>)
    requires
        0 <= k <= s.len(),
    ensures
        str_cols(s.subrange(0, k) + t + s.subrange(k, s.len() as int)) == str_cols(s) + str_cols(
            t,
        ),
{
    lemma_str_cols_subrange(s, k, k);
    assert(s.subrange(k, k) =~= Seq::<char>::empty());
    lemma_str_cols_concat(s.subrange(0, k), t);
    lemma_str_cols_concat(s.subrange(0, k) + t, s.subrange(k, s.len() as int));
    lemma_str_cols_concat(s.subrange(0, k), s.subrange(k, s.len() as int));
    assert(s.subrange(0, k) + s.subrange(k, s.len() as int) =~= s);
}

/// Columns of a two-character sequence.
proof fn lemma_cols_pair(a: char, b: char)
    ensures
        str_cols(seq![a, b]) == char_cols(a) + char_cols(b),
{
    let e = Seq::<char>::empty();
    assert(str_cols(e) == 0);
    assert(seq![a].drop_last() =~= e);
    assert(seq![a].last() == a);
    assert(str_cols(seq![a]) == char_cols(a));
    assert(seq![a, b].drop_last() =~= seq![a]);
    assert(seq![a, b].last() == b);
}

/// Byte offsets of an unchanged prefix are unchanged.
proof fn lemma_offset_same_prefix(s: Seq<char>, t: Seq<char>, k: int)
    requires
        0 <= k <= s.len(),
        k <= t.len(),
        s.subrange(0, k) == t.subrange(0, k),
    ensures
        byte_offset(s, k) == byte_offset(t, k),
{
    assert forall|i: int| 0 <= i < k implies s[i] == t[i] by {
        assert(s.subrange(0, k)[i] == s[i]);
        assert(t.subrange(0, k)[i] == t[i]);
    }
    lemma_byte_offset_prefix(s, t, k);
}

/// The prompt after accepting the completion `name`: the name (after an `@`
/// when completing a mention) and a space.
pub open spec fn completion_text(name: Seq<char>, mention: bool) -> Seq<char> {
    (if mention {
        seq!['@']
    } else {
        Seq::<char>::empty()
    }) + name + seq![' ']
}

/// Text buffer of the prompt, with a byte-offset cursor.
#[derive(Debug, Clone)]
pub struct InputBoxState {
    /// Raw text content.
    pub content: String,
    /// Byte offset of the cursor within `content`.
    pub cursor_pos: usize,
    /// Display column of the cursor (accounts for unicode width).
    pub cursor_col: usize,
    pub autocomplete: AutocompleteState,
    /// Single-entry kill ring for readline-style cut/paste.
    pub kill_ring: String,
}

impl InputBoxState {
    /// The cursor sits on a character boundary.
    pub open spec fn wf(&self) -> bool {
        is_boundary(self.content@, self.cursor_pos as int)
    }

    /// Character index of the cursor.
    pub open spec fn cursor(&self) -> int {
        index_at(self.content@, self.cursor_pos as int)
    }

    pub fn new() -> (s: Self)
        ensures
            s.wf(),
            s.content@.len() == 0,
            s.cursor_pos == 0,
            s.cursor_col == 0,
            s.kill_ring@.len() == 0,
            s.autocomplete.entries@.len() == 0,
            s.autocomplete.selected == 0,
            !s.autocomplete.visible,
    {
        let s = InputBoxState {
            content: String::new(),
            cursor_pos: 0,
            cursor_col: 0,
            autocomplete: AutocompleteState::new(),
            kill_ring: String::new(),
        };
        proof {
            lemma_index_at(s.content@, 0);
        }
        s
    }

    /// Replace the content by `name` (after an `@` when `mention`) and a space,
    /// as accepting a completion does; the cursor goes to the end.
    pub(crate) fn fill_completion(&mut self, name: &Vec<char>, mention: bool)
        ensures
            final(self).wf(),
            final(self).content@ == completion_text(name@, mention),
            final(self).cursor() == final(self).content@.len(),
            final(self).cursor_pos == byte_len(final(self).content@),
            final(self).cursor_col == str_cols(final(self).content@),
            final(self).autocomplete == old(self).autocomplete,
            final(self).kill_ring == old(self).kill_ring,
    {
        let mut out: Vec<char> = Vec::new();
        if mention {
            out.push('@');
        }
        push_range(&mut out, name, 0, name.len());
        out.push(' ');
        proof {
            assert(name@.subrange(0, name@.len() as int) =~= name@);
            assert(out@ =~= completion_text(name@, mention));
        }
        let n = out.len();
        self.set_text(&out, n);
        proof {
            assert(out@.subrange(0, n as int) =~= out@);
        }
        self.cursor_col = cols_between(&out, 0, n);
    }

    /// Replace the content by `chars` and put the cursor before `chars[k]`.
    fn set_text(&mut self, chars: &Vec<char>, k: usize)
        requires
            k <= chars@.len(),
        ensures
            final(self).content@ == chars@,
            final(self).cursor_pos == byte_offset(chars@, k as int),
            is_boundary(chars@, final(self).cursor_pos as int),
            final(self).cursor() == k,
            final(self).cursor_col == old(self).cursor_col,
            final(self).autocomplete == old(self).autocomplete,
            final(self).kill_ring == old(self).kill_ring,
            str_cols(chars@) <= usize::MAX,
    {
        self.content = string_of(chars.as_slice());
        let _ = string_byte_len(&self.content);
        let _ = total_cols(chars);
        self.cursor_pos = offset_of(chars, k);
        proof {
            lemma_index_at(chars@, k as int);
        }
    }

    /// The content as characters, with the cursor's character index.
    fn split_cursor(&self) -> (r: (Vec<char>, usize))
        requires
            self.wf(),
        ensures
            r.0@ == self.content@,
            r.1 == self.cursor(),
            r.1 <= r.0@.len(),
            byte_offset(r.0@, r.1 as int) == self.cursor_pos,
            crate::text::byte_len(r.0@) <= isize::MAX,
            str_cols(r.0@) <= usize::MAX,
    {
        let chars = chars_of(self.content.as_str());
        let _ = string_byte_len(&self.content);
        let _ = total_cols(&chars);
        let k = index_of_offset(&chars, self.cursor_pos);
        (chars, k)
    }

    /// Insert `c` at the cursor and advance the cursor past it.
    pub fn insert_char(&mut self, c: char)
        requires
            old(self).wf(),
            old(self).cursor_col + char_cols(c) <= usize::MAX,
        ensures
            final(self).wf(),
            final(self).content@ == old(self).content@.insert(old(self).cursor(), c),
            final(self).cursor() == old(self).cursor() + 1,
            final(self).cursor_pos == old(self).cursor_pos + utf8_len(c),
            final(self).cursor_col == old(self).cursor_col + char_cols(c),
            final(self).autocomplete == old(self).autocomplete,
            final(self).kill_ring == old(self).kill_ring,
    {
        let (chars, k) = self.split_cursor();
        let n = chars.len();
        let mut out: Vec<char> = Vec::new();
        push_range(&mut out, &chars, 0, k);
        out.push(c);
        push_range(&mut out, &chars, k, n);
        let ghost s = chars@;
        proof {
            assert(out@ =~= s.insert(k as int, c));
            assert(out@ =~= s.subrange(0, k as int) + seq![c] + s.subrange(k as int, n as int));
            lemma_cols_insert_seq(s, k as int, seq![c]);
            assert(str_cols(seq![c]) == char_cols(c)) by {
                assert(seq![c].drop_last() =~= Seq::<char>::empty());
                assert(str_cols(Seq::<char>::empty()) == 0);
                assert(seq![c].last() == c);
            }
            assert(out@.subrange(0, k as int) =~= s.subrange(0, k as int));
            lemma_offset_same_prefix(out@, s, k as int);
        }
        self.set_text(&out, k + 1);
        self.cursor_col = self.cursor_col + char_cols_of(c);
    }

    /// Delete the character before the cursor (backspace).
    pub fn delete_char(&mut self)
        requires
            old(self).wf(),
        ensures
            final(self).wf(),
            old(self).cursor() == 0 ==> *final(self) == *old(self),
            old(self).cursor() > 0 ==> {
                &&& final(self).content@ == old(self).content@.remove(old(self).cursor() - 1)
                &&& final(self).cursor() == old(self).cursor() - 1
                &&& final(self).cursor_pos == byte_offset(
                    old(self).content@,
                    old(self).cursor() - 1,
                )
                &&& final(self).cursor_col == sat_sub(
                    old(self).cursor_col as int,
                    char_cols(old(self).content@[old(self).cursor() - 1]) as int,
                )
            },
            final(self).autocomplete == old(self).autocomplete,
            final(self).kill_ring == old(self).kill_ring,
    {
        if self.cursor_pos == 0 {
            proof {
                lemma_index_at(self.content@, 0);
            }
            return ;
        }
        let (chars, k) = self.split_cursor();
        let n = chars.len();
        let removed = chars[k - 1];
        let mut out: Vec<char> = Vec::new();
        push_range(&mut out, &chars, 0, k - 1);
        push_range(&mut out, &chars, k, n);
        let ghost s = chars@;
        proof {
            assert(out@ =~= s.remove(k - 1));
            lemma_cols_remove_range(s, k - 1, k as int);
            assert(out@.subrange(0, k - 1) =~= s.subrange(0, k - 1));
            lemma_offset_same_prefix(out@, s, k - 1);
        }
        self.set_text(&out, k - 1);
        self.cursor_col = self.cursor_col.saturating_sub(char_cols_of(removed));
    }

    /// Delete the character at the cursor (delete key).
    pub fn delete_forward(&mut self)
        requires
            old(self).wf(),
        ensures
            final(self).wf(),
            old(self).cursor() == old(self).content@.len() ==> *final(self) == *old(self),
            old(self).cursor() < old(self).content@.len() ==> {
                &&& final(self).content@ == old(self).content@.remove(old(self).cursor())
                &&& final(self).cursor() == old(self).cursor()
                &&& final(self).cursor_pos == old(self).cursor_pos
                &&& final(self).cursor_col == old(self).cursor_col
            },
            final(self).autocomplete == old(self).autocomplete,
            final(self).kill_ring == old(self).kill_ring,
    {
        let (chars, k) = self.split_cursor();
        let n = chars.len();
        if k >= n {
            return ;
        }
        let mut out: Vec<char> = Vec::new();
        push_range(&mut out, &chars, 0, k);
        push_range(&mut out, &chars, k + 1, n);
        let ghost s = chars@;
        proof {
            assert(out@ =~= s.remove(k as int));
            lemma_cols_remove_range(s, k as int, k + 1);
            assert(out@.subrange(0, k as int) =~= s.subrange(0, k as int));
            lemma_offset_same_prefix(out@, s, k as int);
        }
        self.set_text(&out, k);
    }

    /// Move the cursor one character left.
    pub fn move_left(&mut self)
        requires
            old(self).wf(),
        ensures
            final(self).wf(),
            final(self).content == old(self).content,
            old(self).cursor() == 0 ==> *final(self) == *old(self),
            old(self).cursor() > 0 ==> {
                &&& final(self).cursor() == old(self).cursor() - 1
                &&& final(self).cursor_pos == byte_offset(
                    old(self).content@,
                    old(self).cursor() - 1,
                )
                &&& final(self).cursor_col == sat_sub(
                    old(self).cursor_col as int,
                    char_cols(old(self).content@[old(self).cursor() - 1]) as int,
                )
            },
            final(self).autocomplete == old(self).autocomplete,
            final(self).kill_ring == old(self).kill_ring,
    {
        if self.cursor_pos == 0 {
            proof {
                lemma_index_at(self.content@, 0);
            }
            return ;
        }
        let (chars, k) = self.split_cursor();
        let c = chars[k - 1];
        self.cursor_pos = offset_of(&chars, k - 1);
        proof {
            lemma_index_at(chars@, k - 1);
        }
        self.cursor_col = self.cursor_col.saturating_sub(char_cols_of(c));
    }

    /// Move the cursor one character right.
    pub fn move_right(&mut self)
        requires
            old(self).wf(),
            old(self).cursor() < old(self).content@.len() ==> old(self).cursor_col + char_cols(
                old(self).content@[old(self).cursor()],
            ) <= usize::MAX,
        ensures
            final(self).wf(),
            final(self).content == old(self).content,
            old(self).cursor() == old(self).content@.len() ==> *final(self) == *old(self),
            old(self).cursor() < old(self).content@.len() ==> {
                &&& final(self).cursor() == old(self).cursor() + 1
                &&& final(self).cursor_pos == byte_offset(
                    old(self).content@,
                    old(self).cursor() + 1,
                )
                &&& final(self).cursor_col == old(self).cursor_col + char_cols(
                    old(self).content@[old(self).cursor()],
                )
            },
            final(self).autocomplete == old(self).autocomplete,
            final(self).kill_ring == old(self).kill_ring,
    {
        let (chars, k) = self.split_cursor();
        if k >= chars.len() {
            return ;
        }
        let c = chars[k];
        self.cursor_pos = offset_of(&chars, k + 1);
        proof {
            lemma_index_at(chars@, k + 1);
        }
        self.cursor_col = self.cursor_col + char_cols_of(c);
    }

    /// Move the cursor to the start of its line; the column becomes 0.
    pub fn move_home(&mut self)
        requires
            old(self).wf(),
        ensures
            final(self).wf(),
            final(self).content == old(self).content,
            final(self).cursor() == line_start(old(self).content@, old(self).cursor()),
            final(self).cursor_pos == byte_offset(
                old(self).content@,
                line_start(old(self).content@, old(self).cursor()),
            ),
            final(self).cursor_col == 0,
            final(self).autocomplete == old(self).autocomplete,
            final(self).kill_ring == old(self).kill_ring,
    {
        let (chars, k) = self.split_cursor();
        let ls = find_line_start(&chars, k);
        self.cursor_pos = offset_of(&chars, ls);
        proof {
            lemma_index_at(chars@, ls as int);
        }
        self.cursor_col = 0;
    }

    /// Move the cursor to the end of its line, adding the columns passed over.
    pub fn move_end(&mut self)
        requires
            old(self).wf(),
            old(self).cursor_col + str_cols(
                old(self).content@.subrange(
                    old(self).cursor(),
                    line_end(old(self).content@, old(self).cursor()),
                ),
            ) <= usize::MAX,
        ensures
            final(self).wf(),
            final(self).content == old(self).content,
            final(self).cursor() == line_end(old(self).content@, old(self).cursor()),
            final(self).cursor_pos == byte_offset(
                old(self).content@,
                line_end(old(self).content@, old(self).cursor()),
            ),
            final(self).cursor_col == old(self).cursor_col + str_cols(
                old(self).content@.subrange(
                    old(self).cursor(),
                    line_end(old(self).content@, old(self).cursor()),
                ),
            ),
            final(self).autocomplete == old(self).autocomplete,
            final(self).kill_ring == old(self).kill_ring,
    {
        let (chars, k) = self.split_cursor();
        let le = find_line_end(&chars, k);
        let added = cols_between(&chars, k, le);
        self.cursor_pos = offset_of(&chars, le);
        proof {
            lemma_index_at(chars@, le as int);
        }
        self.cursor_col = self.cursor_col + added;
    }

    /// Insert a newline at the cursor; the column becomes 0.
    pub fn insert_newline(&mut self)
        requires
            old(self).wf(),
            old(self).cursor_col < usize::MAX,
        ensures
            final(self).wf(),
            final(self).content@ == old(self).content@.insert(old(self).cursor(), '\n'),
            final(self).cursor() == old(self).cursor() + 1,
            final(self).cursor_pos == old(self).cursor_pos + 1,
            final(self).cursor_col == 0,
            final(self).autocomplete == old(self).autocomplete,
            final(self).kill_ring == old(self).kill_ring,
    {
        assert(('\n' as u32) == 10);
        let w = char_cols_of('\n');
        assert(w == 1);
        self.insert_char('\n');
        self.cursor_col = 0;
    }

    /// Empty the buffer, reset the cursor and hide the autocomplete list.
    pub fn clear(&mut self)
        ensures
            final(self).wf(),
            final(self).content@.len() == 0,
            final(self).cursor_pos == 0,
            final(self).cursor_col == 0,
            final(self).autocomplete.entries == old(self).autocomplete.entries,
            final(self).autocomplete.selected == old(self).autocomplete.selected,
            !final(self).autocomplete.visible,
            final(self).kill_ring == old(self).kill_ring,
    {
        self.content = String::new();
        self.cursor_pos = 0;
        self.cursor_col = 0;
        self.autocomplete.hide_dropdown();
        proof {
            lemma_index_at(self.content@, 0);
        }
    }

    /// Take the content out, leaving the buffer as `clear` leaves it.
    pub fn take_content(&mut self) -> (taken: String)
        ensures
            taken@ == old(self).content@,
            final(self).wf(),
            final(self).content@.len() == 0,
            final(self).cursor_pos == 0,
            final(self).cursor_col == 0,
            final(self).autocomplete.entries == old(self).autocomplete.entries,
            final(self).autocomplete.selected == old(self).autocomplete.selected,
            !final(self).autocomplete.visible,
            final(self).kill_ring == old(self).kill_ring,
    {
        let taken = self.content.clone();
        self.clear();
        taken
    }

    pub fn is_empty(&self) -> (b: bool)
        ensures
            b == (self.content@.len() == 0),
    {
        self.content.as_str().is_empty()
    }

    /// Number of lines: newlines plus one.
    pub fn line_count(&self) -> (n: usize)
        ensures
            n == count_newlines(self.content@) + 1,
    {
        let chars = chars_of(self.content.as_str());
        let _ = string_byte_len(&self.content);
        proof {
            lemma_byte_offset_mono(chars@, 0, chars@.len() as int);
        }
        let len = chars.len();
        let mut i: usize = 0;
        let mut count: usize = 0;
        while i < len
            invariant
                len == chars@.len(),
                len <= isize::MAX,
                i <= len,
                count == count_newlines(chars@.subrange(0, i as int)),
                count <= i,
            decreases len - i,
        {
            proof {
                assert(chars@.subrange(0, i + 1).drop_last() =~= chars@.subrange(0, i as int));
            }
            if chars[i] == '\n' {
                count = count + 1;
            }
            i = i + 1;
        }
        proof {
            assert(chars@.subrange(0, len as int) =~= chars@);
        }
        count + 1
    }

    /// The content starts with '/'.
    pub fn has_slash_prefix(&self) -> (b: bool)
        ensures
            b == (self.content@.len() > 0 && self.content@[0] == '/'),
    {
        let chars = chars_of(self.content.as_str());
        chars.len() > 0 && chars[0] == '/'
    }

    /// The content starts with '@'.
    pub fn has_mention_prefix(&self) -> (b: bool)
        ensures
            b == (self.content@.len() > 0 && self.content@[0] == '@'),
    {
        let chars = chars_of(self.content.as_str());
        chars.len() > 0 && chars[0] == '@'
    }

    // ------------------------------------------------------------------
    // Readline-style editing
    // ------------------------------------------------------------------

    /// Move the cursor to the start of the previous word (Alt+B). A word is a
    /// run of alphanumeric or underscore characters.
    pub fn move_word_left(&mut self)
        requires
            old(self).wf(),
        ensures
            final(self).wf(),
            final(self).content == old(self).content,
            old(self).cursor() == 0 ==> *final(self) == *old(self),
            old(self).cursor() > 0 ==> {
                let s = old(self).content@;
                let k = old(self).cursor();
                let p = word_start_back(s, k);
                &&& final(self).cursor() == p
                &&& final(self).cursor_pos == byte_offset(s, p)
                &&& final(self).cursor_col == sat_sub(
                    old(self).cursor_col as int,
                    str_cols(s.subrange(p, k)) as int,
                )
            },
            final(self).autocomplete == old(self).autocomplete,
            final(self).kill_ring == old(self).kill_ring,
    {
        if self.cursor_pos == 0 {
            proof {
                lemma_index_at(self.content@, 0);
            }
            return ;
        }
        let (chars, k) = self.split_cursor();
        let p = find_word_start_back(&chars, k);
        proof {
            lemma_str_cols_subrange(chars@, p as int, k as int);
        }
        let delta = cols_between(&chars, p, k);
        self.cursor_pos = offset_of(&chars, p);
        proof {
            lemma_index_at(chars@, p as int);
        }
        self.cursor_col = self.cursor_col.saturating_sub(delta);
    }

    /// Move the cursor to the end of the next word (Alt+F).
    pub fn move_word_right(&mut self)
        requires
            old(self).wf(),
            old(self).cursor_col + str_cols(
                old(self).content@.subrange(
                    old(self).cursor(),
                    word_end_fwd(old(self).content@, old(self).cursor()),
                ),
            ) <= usize::MAX,
        ensures
            final(self).wf(),
            final(self).content == old(self).content,
            old(self).cursor() == old(self).content@.len() ==> *final(self) == *old(self),
            old(self).cursor() < old(self).content@.len() ==> {
                let s = old(self).content@;
                let k = old(self).cursor();
                let e = word_end_fwd(s, k);
                &&& final(self).cursor() == e
                &&& final(self).cursor_pos == byte_offset(s, e)
                &&& final(self).cursor_col == old(self).cursor_col + str_cols(s.subrange(k, e))
            },
            final(self).autocomplete == old(self).autocomplete,
            final(self).kill_ring == old(self).kill_ring,
    {
        let (chars, k) = self.split_cursor();
        if k >= chars.len() {
            return ;
        }
        let e = find_word_end_fwd(&chars, k);
        proof {
            lemma_str_cols_subrange(chars@, k as int, e as int);
        }
        let added = cols_between(&chars, k, e);
        self.cursor_pos = offset_of(&chars, e);
        proof {
            lemma_index_at(chars@, e as int);
        }
        self.cursor_col = self.cursor_col + added;
    }

    /// Cut from the cursor to the end of the line into the kill ring (Ctrl+K).
    pub fn kill_to_end(&mut self)
        requires
            old(self).wf(),
        ensures
            final(self).wf(),
            ({
                let s = old(self).content@;
                let k = old(self).cursor();
                let e = line_end(s, k);
                &&& final(self).kill_ring@ == s.subrange(k, e)
                &&& final(self).content@ == s.subrange(0, k) + s.subrange(e, s.len() as int)
                &&& final(self).cursor() == k
            }),
            final(self).cursor_pos == old(self).cursor_pos,
            final(self).cursor_col == old(self).cursor_col,
            final(self).autocomplete == old(self).autocomplete,
    {
        let (chars, k) = self.split_cursor();
        let n = chars.len();
        let e = find_line_end(&chars, k);
        let mut killed: Vec<char> = Vec::new();
        push_range(&mut killed, &chars, k, e);
        let mut out: Vec<char> = Vec::new();
        push_range(&mut out, &chars, 0, k);
        push_range(&mut out, &chars, e, n);
        let ghost s = chars@;
        proof {
            lemma_cols_remove_range(s, k as int, e as int);
            assert(out@.subrange(0, k as int) =~= s.subrange(0, k as int));
            lemma_offset_same_prefix(out@, s, k as int);
        }
        self.kill_ring = string_of(killed.as_slice());
        self.set_text(&out, k);
    }

    /// Cut from the start of the line to the cursor into the kill ring (Ctrl+U);
    /// the cursor moves to the line start and the column becomes 0.
    pub fn kill_to_start(&mut self)
        requires
            old(self).wf(),
        ensures
            final(self).wf(),
            ({
                let s = old(self).content@;
                let k = old(self).cursor();
                let b = line_start(s, k);
                &&& final(self).kill_ring@ == s.subrange(b, k)
                &&& final(self).content@ == s.subrange(0, b) + s.subrange(k, s.len() as int)
                &&& final(self).cursor() == b
                &&& final(self).cursor_pos == byte_offset(s, b)
            }),
            final(self).cursor_col == 0,
            final(self).autocomplete == old(self).autocomplete,
    {
        let (chars, k) = self.split_cursor();
        let n = chars.len();
        let b = find_line_start(&chars, k);
        let mut killed: Vec<char> = Vec::new();
        push_range(&mut killed, &chars, b, k);
        let mut out: Vec<char> = Vec::new();
        push_range(&mut out, &chars, 0, b);
        push_range(&mut out, &chars, k, n);
        let ghost s = chars@;
        proof {
            lemma_cols_remove_range(s, b as int, k as int);
            assert(out@.subrange(0, b as int) =~= s.subrange(0, b as int));
            lemma_offset_same_prefix(out@, s, b as int);
        }
        self.kill_ring = string_of(killed.as_slice());
        self.set_text(&out, b);
        self.cursor_col = 0;
    }

    /// Cut the word before the cursor into the kill ring (Ctrl+W).
    pub fn delete_word_back(&mut self)
        requires
            old(self).wf(),
        ensures
            final(self).wf(),
            old(self).cursor() == 0 ==> *final(self) == *old(self),
            old(self).cursor() > 0 ==> {
                let s = old(self).content@;
                let k = old(self).cursor();
                let p = word_start_back(s, k);
                &&& final(self).kill_ring@ == s.subrange(p, k)
                &&& final(self).content@ == s.subrange(0, p) + s.subrange(k, s.len() as int)
                &&& final(self).cursor() == p
                &&& final(self).cursor_pos == byte_offset(s, p)
                &&& final(self).cursor_col == sat_sub(
                    old(self).cursor_col as int,
                    str_cols(s.subrange(p, k)) as int,
                )
            },
            final(self).autocomplete == old(self).autocomplete,
    {
        if self.cursor_pos == 0 {
            proof {
                lemma_index_at(self.content@, 0);
            }
            return ;
        }
        let (chars, k) = self.split_cursor();
        let n = chars.len();
        let p = find_word_start_back(&chars, k);
        proof {
            lemma_str_cols_subrange(chars@, p as int, k as int);
        }
        let removed_cols = cols_between(&chars, p, k);
        let mut killed: Vec<char> = Vec::new();
        push_range(&mut killed, &chars, p, k);
        let mut out: Vec<char> = Vec::new();
        push_range(&mut out, &chars, 0, p);
        push_range(&mut out, &chars, k, n);
        let ghost s = chars@;
        proof {
            lemma_cols_remove_range(s, p as int, k as int);
            assert(out@.subrange(0, p as int) =~= s.subrange(0, p as int));
            lemma_offset_same_prefix(out@, s, p as int);
        }
        self.kill_ring = string_of(killed.as_slice());
        self.set_text(&out, p);
        self.cursor_col = self.cursor_col.saturating_sub(removed_cols);
    }

    /// Cut from the cursor to the end of the next word into the kill ring (Alt+D).
    pub fn delete_word_forward(&mut self)
        requires
            old(self).wf(),
        ensures
            final(self).wf(),
            old(self).cursor() == old(self).content@.len() ==> *final(self) == *old(self),
            old(self).cursor() < old(self).content@.len() ==> {
                let s = old(self).content@;
                let k = old(self).cursor();
                let e = word_end_fwd(s, k);
                &&& final(self).kill_ring@ == s.subrange(k, e)
                &&& final(self).content@ == s.subrange(0, k) + s.subrange(e, s.len() as int)
                &&& final(self).cursor() == k
                &&& final(self).cursor_pos == old(self).cursor_pos
                &&& final(self).cursor_col == old(self).cursor_col
            },
            final(self).autocomplete == old(self).autocomplete,
    {
        let (chars, k) = self.split_cursor();
        let n = chars.len();
        if k >= n {
            return ;
        }
        let e = find_word_end_fwd(&chars, k);
        let mut killed: Vec<char> = Vec::new();
        push_range(&mut killed, &chars, k, e);
        let mut out: Vec<char> = Vec::new();
        push_range(&mut out, &chars, 0, k);
        push_range(&mut out, &chars, e, n);
        let ghost s = chars@;
        proof {
            lemma_cols_remove_range(s, k as int, e as int);
            assert(out@.subrange(0, k as int) =~= s.subrange(0, k as int));
            lemma_offset_same_prefix(out@, s, k as int);
        }
        self.kill_ring = string_of(killed.as_slice());
        self.set_text(&out, k);
    }

    /// Swap the two characters before the cursor (Ctrl+T). The cursor stays put.
    #[verifier::rlimit(40)]
    pub fn transpose_chars(&mut self)
        requires
            old(self).wf(),
        ensures
            final(self).wf(),
            old(self).cursor() < 2 ==> *final(self) == *old(self),
            old(self).cursor() >= 2 ==> {
                let s = old(self).content@;
                let k = old(self).cursor();
                &&& final(self).content@ == s.update(k - 2, s[k - 1]).update(k - 1, s[k - 2])
                &&& final(self).cursor() == k
            },
            final(self).cursor_pos == old(self).cursor_pos,
            final(self).cursor_col == old(self).cursor_col,
            final(self).autocomplete == old(self).autocomplete,
            final(self).kill_ring == old(self).kill_ring,
    {
        let (chars, k) = self.split_cursor();
        if k < 2 {
            return ;
        }
        let n = chars.len();
        let c1 = chars[k - 2];
        let c2 = chars[k - 1];
        let mut out: Vec<char> = Vec::new();
        push_range(&mut out, &chars, 0, k - 2);
        out.push(c2);
        out.push(c1);
        push_range(&mut out, &chars, k, n);
        let ghost s = chars@;
        proof {
            let t = out@;
            assert(t =~= s.update(k - 2, s[k - 1]).update(k - 1, s[k - 2]));
            assert(t =~= s.subrange(0, k - 2) + seq![c2, c1] + s.subrange(k as int, n as int));
            assert(s =~= s.subrange(0, k - 2) + seq![c1, c2] + s.subrange(k as int, n as int));
            lemma_cols_insert_seq(s.subrange(0, k - 2) + s.subrange(k as int, n as int), k - 2, seq![c2, c1]);
            lemma_cols_insert_seq(s.subrange(0, k - 2) + s.subrange(k as int, n as int), k - 2, seq![c1, c2]);
            let base = s.subrange(0, k - 2) + s.subrange(k as int, n as int);
            assert(base.subrange(0, k - 2) =~= s.subrange(0, k - 2));
            assert(base.subrange(k - 2, base.len() as int) =~= s.subrange(k as int, n as int));
            lemma_cols_pair(c2, c1);
            lemma_cols_pair(c1, c2);
            lemma_byte_offset_prefix(t, s, k - 2);
            assert(byte_offset(t, k as int) == byte_offset(t, k - 1) + utf8_len(t[k - 1]));
            assert(byte_offset(t, k - 1) == byte_offset(t, k - 2) + utf8_len(t[k - 2]));
            assert(byte_offset(s, k as int) == byte_offset(s, k - 1) + utf8_len(s[k - 1]));
            assert(byte_offset(s, k - 1) == byte_offset(s, k - 2) + utf8_len(s[k - 2]));
        }
        self.set_text(&out, k);
    }

    /// Insert the kill ring at the cursor and move past it (Ctrl+Y).
    pub fn yank(&mut self)
        requires
            old(self).wf(),
            old(self).cursor_col + str_cols(old(self).kill_ring@) <= usize::MAX,
        ensures
            final(self).wf(),
            old(self).kill_ring@.len() == 0 ==> *final(self) == *old(self),
            old(self).kill_ring@.len() > 0 ==> {
                let s = old(self).content@;
                let k = old(self).cursor();
                let y = old(self).kill_ring@;
                &&& final(self).content@ == s.subrange(0, k) + y + s.subrange(k, s.len() as int)
                &&& final(self).cursor() == k + y.len()
                &&& final(self).cursor_col == old(self).cursor_col + str_cols(y)
            },
            final(self).autocomplete == old(self).autocomplete,
            final(self).kill_ring == old(self).kill_ring,
    {
        let yanked = chars_of(self.kill_ring.as_str());
        let m = yanked.len();
        if m == 0 {
            return ;
        }
        let (chars, k) = self.split_cursor();
        let n = chars.len();
        proof {
            assert(yanked@.subrange(0, m as int) =~= yanked@);
        }
        let col_delta = cols_between(&yanked, 0, m);
        let mut out: Vec<char> = Vec::new();
        push_range(&mut out, &chars, 0, k);
        push_range(&mut out, &yanked, 0, m);
        push_range(&mut out, &chars, k, n);
        let ghost s = chars@;
        proof {
            lemma_cols_insert_seq(s, k as int, yanked@);
        }
        let total = out.len();
        assert(k + m <= total);
        self.set_text(&out, k + m);
        self.cursor_col = self.cursor_col + col_delta;
    }

    /// Move the cursor up one line, keeping its display column where the line
    /// is long enough (Ctrl+P / Up). Does nothing on the first line.
    pub fn move_up(&mut self)
        requires
            old(self).wf(),
        ensures
            final(self).wf(),
            final(self).content == old(self).content,
            ({
                let s = old(self).content@;
                let k = old(self).cursor();
                let ls = line_start(s, k);
                let ts = line_start(s, ls - 1);
                let j = col_index(s, ts, ls - 1, str_cols(s.subrange(ls, k)) as int, 0);
                &&& ls == 0 ==> *final(self) == *old(self)
                &&& ls > 0 ==> {
                    &&& final(self).cursor() == j
                    &&& final(self).cursor_pos == byte_offset(s, j)
                    &&& final(self).cursor_col == str_cols(s.subrange(ts, j))
                }
            }),
            final(self).autocomplete == old(self).autocomplete,
            final(self).kill_ring == old(self).kill_ring,
    {
        let (chars, k) = self.split_cursor();
        let ls = find_line_start(&chars, k);
        if ls == 0 {
            return ;
        }
        proof {
            lemma_line_start_bounds(chars@, k as int);
            lemma_line_start_bounds(chars@, ls - 1);
            lemma_str_cols_subrange(chars@, ls as int, k as int);
        }
        let col = cols_between(&chars, ls, k);
        let ts = find_line_start(&chars, ls - 1);
        let j = pos_at_col(&chars, ts, ls - 1, col);
        proof {
            lemma_str_cols_subrange(chars@, ts as int, j as int);
        }
        let new_col = cols_between(&chars, ts, j);
        self.cursor_pos = offset_of(&chars, j);
        proof {
            lemma_index_at(chars@, j as int);
        }
        self.cursor_col = new_col;
    }

    /// Move the cursor down one line, keeping its display column where the line
    /// is long enough (Ctrl+N / Down). Does nothing on the last line.
    pub fn move_down(&mut self)
        requires
            old(self).wf(),
        ensures
            final(self).wf(),
            final(self).content == old(self).content,
            ({
                let s = old(self).content@;
                let k = old(self).cursor();
                let ls = line_start(s, k);
                let le = line_end(s, k);
                let te = line_end(s, le + 1);
                let j = col_index(s, le + 1, te, str_cols(s.subrange(ls, k)) as int, 0);
                &&& le == s.len() ==> *final(self) == *old(self)
                &&& le < s.len() ==> {
                    &&& final(self).cursor() == j
                    &&& final(self).cursor_pos == byte_offset(s, j)
                    &&& final(self).cursor_col == str_cols(s.subrange(le + 1, j))
                }
            }),
            final(self).autocomplete == old(self).autocomplete,
            final(self).kill_ring == old(self).kill_ring,
    {
        let (chars, k) = self.split_cursor();
        let n = chars.len();
        let le = find_line_end(&chars, k);
        if le == n {
            return ;
        }
        let ls = find_line_start(&chars, k);
        proof {
            lemma_str_cols_subrange(chars@, ls as int, k as int);
        }
        let col = cols_between(&chars, ls, k);
        let te = find_line_end(&chars, le + 1);
        let j = pos_at_col(&chars, le + 1, te, col);
        proof {
            lemma_str_cols_subrange(chars@, le + 1, j as int);
        }
        let new_col = cols_between(&chars, le + 1, j);
        self.cursor_pos = offset_of(&chars, j);
        proof {
            lemma_index_at(chars@, j as int);
        }
        self.cursor_col = new_col;
    }

    /// Replace `chars[ws..e]` by `word` and put the cursor after the new word.
    fn replace_word(&mut self, chars: &Vec<char>, ws: usize, e: usize, word: &Vec<char>)
        requires
            ws <= e <= chars@.len(),
        ensures
            final(self).wf(),
            final(self).content@ == replace_range(chars@, ws as int, e as int, word@),
            final(self).cursor() == ws + word@.len(),
            final(self).cursor_pos == byte_offset(final(self).content@, ws + word@.len()),
            final(self).cursor_col == str_cols(
                final(self).content@.subrange(0, ws + word@.len()),
            ),
            final(self).autocomplete == old(self).autocomplete,
            final(self).kill_ring == old(self).kill_ring,
    {
        let n = chars.len();
        let mut out: Vec<char> = Vec::new();
        push_range(&mut out, chars, 0, ws);
        push_range(&mut out, word, 0, word.len());
        push_range(&mut out, chars, e, n);
        proof {
            assert(word@.subrange(0, word@.len() as int) =~= word@);
            assert(out@ =~= replace_range(chars@, ws as int, e as int, word@));
        }
        self.content = string_of(out.as_slice());
        let _ = string_byte_len(&self.content);
        let j = ws + word.len();
        let pos = offset_of(&out, j);
        let _ = total_cols(&out);
        proof {
            lemma_str_cols_subrange(out@, 0, j as int);
            lemma_index_at(out@, j as int);
        }
        self.cursor_pos = pos;
        self.cursor_col = cols_between(&out, 0, j);
    }

    /// Uppercase from the cursor to the end of the next word and move past it (Alt+U).
    pub fn upcase_word(&mut self)
        requires
            old(self).wf(),
        ensures
            final(self).wf(),
            ({
                let s = old(self).content@;
                let k = old(self).cursor();
                let ws = skip_fwd_nonword(s, k);
                let e = skip_fwd_word(s, ws);
                &&& (k >= s.len() || ws >= s.len()) ==> *final(self) == *old(self)
                &&& (k < s.len() && ws < s.len()) ==> {
                    &&& final(self).content@ == replace_range(s, ws, e, upcased(s, ws, e))
                    &&& final(self).cursor() == ws + upcased(s, ws, e).len()
                    &&& final(self).cursor_pos == byte_offset(final(self).content@, ws + upcased(s, ws, e).len())
                    &&& final(self).cursor_col == str_cols(
                        final(self).content@.subrange(0, ws + upcased(s, ws, e).len()),
                    )
                }
            }),
            final(self).autocomplete == old(self).autocomplete,
            final(self).kill_ring == old(self).kill_ring,
    {
        self.recase_word(0);
    }

    /// Lowercase from the cursor to the end of the next word and move past it (Alt+L).
    pub fn downcase_word(&mut self)
        requires
            old(self).wf(),
        ensures
            final(self).wf(),
            ({
                let s = old(self).content@;
                let k = old(self).cursor();
                let ws = skip_fwd_nonword(s, k);
                let e = skip_fwd_word(s, ws);
                &&& (k >= s.len() || ws >= s.len()) ==> *final(self) == *old(self)
                &&& (k < s.len() && ws < s.len()) ==> {
                    &&& final(self).content@ == replace_range(s, ws, e, downcased(s, ws, e))
                    &&& final(self).cursor() == ws + downcased(s, ws, e).len()
                    &&& final(self).cursor_pos == byte_offset(final(self).content@, ws + downcased(s, ws, e).len())
                    &&& final(self).cursor_col == str_cols(
                        final(self).content@.subrange(0, ws + downcased(s, ws, e).len()),
                    )
                }
            }),
            final(self).autocomplete == old(self).autocomplete,
            final(self).kill_ring == old(self).kill_ring,
    {
        self.recase_word(1);
    }

    /// Capitalize the next word: its first character uppercased, the rest
    /// lowercased; the cursor moves past it (Alt+C).
    pub fn capitalize_word(&mut self)
        requires
            old(self).wf(),
        ensures
            final(self).wf(),
            ({
                let s = old(self).content@;
                let k = old(self).cursor();
                let ws = skip_fwd_nonword(s, k);
                let e = skip_fwd_word(s, ws);
                &&& (k >= s.len() || ws >= s.len()) ==> *final(self) == *old(self)
                &&& (k < s.len() && ws < s.len()) ==> {
                    &&& final(self).content@ == replace_range(s, ws, e, capitalized(s, ws, e))
                    &&& final(self).cursor() == ws + capitalized(s, ws, e).len()
                    &&& final(self).cursor_pos == byte_offset(final(self).content@, ws + capitalized(s, ws, e).len())
                    &&& final(self).cursor_col == str_cols(
                        final(self).content@.subrange(0, ws + capitalized(s, ws, e).len()),
                    )
                }
            }),
            final(self).autocomplete == old(self).autocomplete,
            final(self).kill_ring == old(self).kill_ring,
    {
        self.recase_word(2);
    }

    /// Shared body of the three case commands: 0 uppercases, 1 lowercases,
    /// 2 capitalizes the word from the cursor.
    fn recase_word(&mut self, mode: u8)
        requires
            old(self).wf(),
            mode <= 2,
        ensures
            final(self).wf(),
            ({
                let s = old(self).content@;
                let k = old(self).cursor();
                let ws = skip_fwd_nonword(s, k);
                let e = skip_fwd_word(s, ws);
                let w = if mode == 0 {
                    upcased(s, ws, e)
                } else if mode == 1 {
                    downcased(s, ws, e)
                } else {
                    capitalized(s, ws, e)
                };
                &&& (k >= s.len() || ws >= s.len()) ==> *final(self) == *old(self)
                &&& (k < s.len() && ws < s.len()) ==> {
                    &&& final(self).content@ == replace_range(s, ws, e, w)
                    &&& final(self).cursor() == ws + w.len()
                    &&& final(self).cursor_pos == byte_offset(final(self).content@, ws + w.len())
                    &&& final(self).cursor_col == str_cols(
                        final(self).content@.subrange(0, ws + w.len()),
                    )
                }
            }),
            final(self).autocomplete == old(self).autocomplete,
            final(self).kill_ring == old(self).kill_ring,
    {
        let (chars, k) = self.split_cursor();
        let n = chars.len();
        if k >= n {
            return ;
        }
        let ws = find_skip_fwd_nonword(&chars, k);
        if ws >= n {
            return ;
        }
        let e = find_skip_fwd_word(&chars, ws);
        let mut word: Vec<char> = Vec::new();
        if mode == 0 {
            push_recased(&mut word, &chars, ws, e, true);
            proof {
                assert(word@ =~= upcased(chars@, ws as int, e as int));
            }
        } else if mode == 1 {
            push_recased(&mut word, &chars, ws, e, false);
            proof {
                assert(word@ =~= downcased(chars@, ws as int, e as int));
            }
        } else {
            proof {
                lemma_skip_fwd_bounds(chars@, k as int);
                assert(skip_fwd_word(chars@, ws as int) == skip_fwd_word(chars@, ws + 1));
                lemma_skip_fwd_bounds(chars@, ws + 1);
            }
            let first = char_to_uppercase(chars[ws]);
            push_range(&mut word, &first, 0, first.len());
            push_recased(&mut word, &chars, ws + 1, e, false);
            proof {
                assert(first@.subrange(0, first@.len() as int) =~= first@);
                assert(word@ =~= capitalized(chars@, ws as int, e as int));
            }
        }
        self.replace_word(&chars, ws, e, &word);
    }

    /// Swap the word before the cursor with the word after it (Alt+T): the last
    /// word starting before the cursor and the next one. In or past the last
    /// word, swap the last two; before the first word, the first two. The
    /// cursor lands after the later word. Fewer than two words: nothing changes.
    pub fn transpose_words(&mut self)
        requires
            old(self).wf(),
        ensures
            final(self).wf(),
            ({
                let s = old(self).content@;
                let w = word_spans(s);
                let pq = swap_pair(w, old(self).cursor());
                let a = w[pq.0];
                let b = w[pq.1];
                let t = words_swapped(s, a, b);
                &&& w.len() < 2 ==> *final(self) == *old(self)
                &&& w.len() >= 2 ==> {
                    &&& 0 <= pq.0 < pq.1 < w.len()
                    &&& final(self).content@ == t
                    &&& final(self).cursor() == b.1
                    &&& final(self).cursor_pos == byte_offset(t, b.1)
                    &&& final(self).cursor_col == str_cols(t.subrange(0, b.1))
                }
            }),
            final(self).autocomplete == old(self).autocomplete,
            final(self).kill_ring == old(self).kill_ring,
    {
        let (chars, k) = self.split_cursor();
        let n = chars.len();
        let words = collect_word_spans(&chars);
        let ghost w = word_spans(chars@);
        let count = words.len();
        proof {
            lemma_spans_scan(chars@, 0, None);
            assert(w.len() == count);
            assert forall|m: int| 0 <= m < count implies words@[m].0 == w[m].0 && words@[m].1
                == w[m].1 by {
                assert(spans_view(words@)[m] == (words@[m].0 as int, words@[m].1 as int));
            }
        }
        if count < 2 {
            return ;
        }
        let (p, q) = choose_swap_pair(&words, k);
        let (s1, e1) = words[p];
        let (s2, e2) = words[q];
        proof {
            assert(spans_ordered(w, 0, n as int));
            assert(w[p as int].0 < w[p as int].1 <= n);
            assert(w[q as int].0 < w[q as int].1 <= n);
            assert(w[p as int].1 <= w[p as int + 1].0);
        }
        let mut out: Vec<char> = Vec::new();
        push_range(&mut out, &chars, 0, s1);
        push_range(&mut out, &chars, s2, e2);
        push_range(&mut out, &chars, e1, s2);
        push_range(&mut out, &chars, s1, e1);
        push_range(&mut out, &chars, e2, n);
        proof {
            lemma_swap_cols(chars@, out@, s1 as int, e1 as int, s2 as int, e2 as int);
        }
        self.set_text(&out, e2);
        self.cursor_col = cols_between(&out, 0, e2);
    }
}

proof fn lemma_skip_back_nonword_shape(s: Seq<char>, k: int)
    requires
        0 <= k <= s.len(),
    ensures
        0 <= skip_back_nonword(s, k) <= k,
        forall|i: int| skip_back_nonword(s, k) <= i < k ==> !is_word(#[trigger] s[i]),
        skip_back_nonword(s, k) > 0 ==> is_word(s[skip_back_nonword(s, k) - 1]),
    decreases k,
{
    if k > 0 && !is_word(s[k - 1]) {
        lemma_skip_back_nonword_shape(s, k - 1);
    }
}

proof fn lemma_skip_back_word_shape(s: Seq<char>, k: int)
    requires
        0 <= k <= s.len(),
    ensures
        0 <= skip_back_word(s, k) <= k,
        forall|i: int| skip_back_word(s, k) <= i < k ==> is_word(#[trigger] s[i]),
        skip_back_word(s, k) > 0 ==> !is_word(s[skip_back_word(s, k) - 1]),
    decreases k,
{
    if k > 0 && is_word(s[k - 1]) {
        lemma_skip_back_word_shape(s, k - 1);
    }
}

/// Moving a word left (Alt+B), and the span Ctrl+W deletes, end at the start
/// `p` of the nearest word before the cursor `k`. Let `j` be the end of the
/// last word character before `k` (so `s[j - 1]` is a word character and none
/// in `[j, k)` is). Then `p < j`, every character in `[p, j)` is a word
/// character (alphanumeric or `_`), and the one before `p`, if any, is not.
/// With no word character before `k`, the cursor stays at `k`.
pub proof fn law_word_start_back(s: Seq<char>, k: int, j: int)
    requires
        0 <= k <= s.len(),
    ensures
        (forall|i: int| 0 <= i < k ==> !is_word(#[trigger] s[i])) ==> word_start_back(s, k) == k,
        (0 < j <= k && is_word(s[j - 1]) && forall|i: int| j <= i < k ==> !is_word(#[trigger] s[i]))
            ==> {
            let p = word_start_back(s, k);
            &&& 0 <= p < j
            &&& forall|i: int| p <= i < j ==> is_word(#[trigger] s[i])
            &&& (p == 0 || !is_word(s[p - 1]))
        },
{
    let j0 = skip_back_nonword(s, k);
    lemma_skip_back_nonword_shape(s, k);
    if j0 > 0 {
        lemma_skip_back_word_shape(s, j0);
        assert(is_word(s[j0 - 1]));
    }
    if 0 < j <= k && is_word(s[j - 1]) && forall|i: int| j <= i < k ==> !is_word(#[trigger] s[i]) {
        assert(j <= j0) by {
            if j > j0 {
                assert(!is_word(s[j - 1]));
            }
        }
        assert(j0 <= j) by {
            if j0 > j {
                assert(!is_word(s[j0 - 1]));
            }
        }
    }
}

/// Typing a character and deleting it again gives back the text, with the
/// cursor back where it was.
pub proof fn law_insert_then_delete(s: Seq<char>, k: int, c: char)
    requires
        0 <= k <= s.len(),
    ensures
        s.insert(k, c).remove((k + 1) - 1) == s,
{
    assert(s.insert(k, c).remove(k) =~= s);
}

/// Killing to the end of the line and yanking it back gives back the text,
/// with the cursor at the old end of the line.
pub proof fn law_kill_to_end_then_yank(s: Seq<char>, k: int)
    requires
        0 <= k <= s.len(),
    ensures
        ({
            let e = line_end(s, k);
            let t = s.subrange(0, k) + s.subrange(e, s.len() as int);
            t.subrange(0, k) + s.subrange(k, e) + t.subrange(k, t.len() as int) == s
        }),
{
    lemma_line_end_bounds(s, k);
    let e = line_end(s, k);
    let t = s.subrange(0, k) + s.subrange(e, s.len() as int);
    assert(t.subrange(0, k) =~= s.subrange(0, k));
    assert(t.subrange(k, t.len() as int) =~= s.subrange(e, s.len() as int));
    assert(t.subrange(0, k) + s.subrange(k, e) + t.subrange(k, t.len() as int) =~= s);
}

/// Killing to the start of the line and yanking it back gives back the text
/// and the cursor position.
pub proof fn law_kill_to_start_then_yank(s: Seq<char>, k: int)
    requires
        0 <= k <= s.len(),
    ensures
        ({
            let b = line_start(s, k);
            let t = s.subrange(0, b) + s.subrange(k, s.len() as int);
            &&& t.subrange(0, b) + s.subrange(b, k) + t.subrange(b, t.len() as int) == s
            &&& b + s.subrange(b, k).len() == k
        }),
{
    lemma_line_start_bounds(s, k);
    let b = line_start(s, k);
    let t = s.subrange(0, b) + s.subrange(k, s.len() as int);
    assert(t.subrange(0, b) =~= s.subrange(0, b));
    assert(t.subrange(b, t.len() as int) =~= s.subrange(k, s.len() as int));
    assert(t.subrange(0, b) + s.subrange(b, k) + t.subrange(b, t.len() as int) =~= s);
}

impl Default for AutocompleteState {
    fn default() -> (s: Self)
        ensures
            s.entries@.len() == 0,
            s.selected == 0,
            !s.visible,
    {
        Self::new()
    }
}

impl Default for InputBoxState {
    fn default() -> (s: Self)
        ensures
            s.wf(),
            s.content@.len() == 0,
            s.cursor_pos == 0,
            s.cursor_col == 0,
            s.kill_ring@.len() == 0,
            s.autocomplete.entries@.len() == 0,
            s.autocomplete.selected == 0,
            !s.autocomplete.visible,
    {
        Self::new()
    }
}

} // verus!
