//! The tab strip: the five tabs, the active one, per-tab badge counts, and
//! mapping a click column back to the tab under it.

use vstd::prelude::*;

use crate::date::decimal;

verus! {

/// One of the top-level tabs.
#[derive(Debug, Clone, Copy, PartialEq, Eq, Hash, Structural)]
pub enum TabId {
    Chat,
    Subagents,
    Tools,
    Mcp,
    Logs,
}

/// Position of a tab in the strip.
pub open spec fn tab_index(t: TabId) -> int {
    match t {
        TabId::Chat => 0,
        TabId::Subagents => 1,
        TabId::Tools => 2,
        TabId::Mcp => 3,
        TabId::Logs => 4,
    }
}

/// The tab at a position (0 to 4).
pub open spec fn tab_at(i: int) -> TabId {
    if i == 0 {
        TabId::Chat
    } else if i == 1 {
        TabId::Subagents
    } else if i == 2 {
        TabId::Tools
    } else if i == 3 {
        TabId::Mcp
    } else {
        TabId::Logs
    }
}

/// A tab's label, as shown in the strip.
pub open spec fn tab_label(t: TabId) -> Seq<char> {
    match t {
        TabId::Chat => seq!['C', 'h', 'a', 't'],
        TabId::Subagents => seq!['S', 'u', 'b', 'a', 'g', 'e', 'n', 't', 's'],
        TabId::Tools => seq!['T', 'o', 'o', 'l', 's'],
        TabId::Mcp => seq!['M', 'C', 'P'],
        TabId::Logs => seq!['L', 'o', 'g', 's'],
    }
}

/// Byte length of a tab's label.
pub open spec fn label_len(t: TabId) -> int {
    match t {
        TabId::Chat => 4,
        TabId::Subagents => 9,
        TabId::Tools => 5,
        TabId::Mcp => 3,
        TabId::Logs => 4,
    }
}

impl TabId {
    /// All tabs, in strip order.
    pub fn all() -> (r: Vec<TabId>)
        ensures
            r@ == seq![TabId::Chat, TabId::Subagents, TabId::Tools, TabId::Mcp, TabId::Logs],
    {
        vec![TabId::Chat, TabId::Subagents, TabId::Tools, TabId::Mcp, TabId::Logs]
    }

    pub fn label(self) -> (r: &'static str)
        ensures
            r@ == match self {
                TabId::Chat => "Chat"@,
                TabId::Subagents => "Subagents"@,
                TabId::Tools => "Tools"@,
                TabId::Mcp => "MCP"@,
                TabId::Logs => "Logs"@,
            },
            r@ == tab_label(self),
    {
        proof {
            reveal_strlit("Chat");
            reveal_strlit("Subagents");
            reveal_strlit("Tools");
            reveal_strlit("MCP");
            reveal_strlit("Logs");
        }
        match self {
            TabId::Chat => "Chat",
            TabId::Subagents => "Subagents",
            TabId::Tools => "Tools",
            TabId::Mcp => "MCP",
            TabId::Logs => "Logs",
        }
    }

    /// Position of this tab in `all()`.
    pub fn index(self) -> (r: usize)
        ensures
            r == tab_index(self),
            tab_at(r as int) == self,
    {
        match self {
            TabId::Chat => 0,
            TabId::Subagents => 1,
            TabId::Tools => 2,
            TabId::Mcp => 3,
            TabId::Logs => 4,
        }
    }

    /// The tab at position `i` (0 to 4).
    fn at(i: usize) -> (t: TabId)
        requires
            i < 5,
        ensures
            t == tab_at(i as int),
            tab_index(t) == i,
    {
        if i == 0 {
            TabId::Chat
        } else if i == 1 {
            TabId::Subagents
        } else if i == 2 {
            TabId::Tools
        } else if i == 3 {
            TabId::Mcp
        } else {
            TabId::Logs
        }
    }

    fn label_bytes(self) -> (n: u16)
        ensures
            n == label_len(self),
    {
        match self {
            TabId::Chat => 4,
            TabId::Subagents => 9,
            TabId::Tools => 5,
            TabId::Mcp => 3,
            TabId::Logs => 4,
        }
    }
}

/// Number of decimal digits of `n`.
pub open spec fn dec_digits(n: nat) -> nat
    decreases n,
{
    if n < 10 {
        1
    } else {
        1 + dec_digits(n / 10)
    }
}

fn decimal_digits(n: usize) -> (d: u16)
    ensures
        d == dec_digits(n as nat),
        1 <= d <= 20,
{
    proof {
        lemma_dec_digits_usize(n as nat);
    }
    let mut m = n;
    let mut d: u16 = 1;
    while m >= 10
        invariant
            d + dec_digits(m as nat) == 1 + dec_digits(n as nat),
            dec_digits(n as nat) <= 20,
            1 <= d,
            dec_digits(m as nat) >= 1,
        decreases m,
    {
        assert(dec_digits(m as nat) == 1 + dec_digits((m / 10) as nat));
        m = m / 10;
        d = d + 1;
    }
    d
}

proof fn lemma_dec_digits_usize(n: nat)
    requires
        n <= usize::MAX,
    ensures
        dec_digits(n) <= 20,
{
    assert(pow10(20) == 100000000000000000000nat) by {
        reveal_with_fuel(pow10, 21);
    }
    lemma_dec_digits_bound(n, 20);
}

proof fn lemma_dec_digits_bound(n: nat, k: nat)
    requires
        k >= 1,
        n < pow10(k),
    ensures
        dec_digits(n) <= k,
    decreases k,
{
    if n >= 10 {
        if k == 1 {
            assert(pow10(1) == 10) by {
                assert(pow10(0) == 1);
            }
            assert(false);
        }
        let p = pow10((k - 1) as nat);
        assert(pow10(k) == 10 * p);
        assert(n / 10 < p) by (nonlinear_arith)
            requires
                n < 10 * p,
        ;
        lemma_dec_digits_bound(n / 10, (k - 1) as nat);
    }
}

pub open spec fn pow10(k: nat) -> nat
    decreases k,
{
    if k == 0 {
        1
    } else {
        10 * pow10((k - 1) as nat)
    }
}

/// Width of a tab's text in the strip: " Label " or " Label (N) ".
pub open spec fn tab_text_len(t: TabId, badge: Option<usize>) -> int {
    match badge {
        Some(c) => label_len(t) + dec_digits(c as nat) + 5,
        None => label_len(t) + 2,
    }
}

/// The active tab and the badge count of each tab.
#[derive(Debug, Clone)]
pub struct TabBarState {
    pub active: TabId,
    pub badges: [Option<usize>; 5],
}

impl TabBarState {
    /// Badge of the tab at position `i`.
    pub open spec fn badge_at(&self, i: int) -> Option<usize> {
        self.badges@[i]
    }

    /// The tab under column `x`, scanning from tab `k` whose text starts at `col`;
    /// each tab spans its text plus one separator column.
    pub open spec fn hit_from(&self, x: int, col: int, k: int) -> Option<TabId>
        decreases 5 - k,
    {
        if k >= 5 || k < 0 {
            None
        } else {
            let end = col + tab_text_len(tab_at(k), self.badge_at(k)) + 1;
            if col <= x < end {
                Some(tab_at(k))
            } else {
                self.hit_from(x, end, k + 1)
            }
        }
    }

    /// The columns scanned before the hit (or all of them) fit in a `u16`.
    pub open spec fn hit_fits(&self, x: int, col: int, k: int) -> bool
        decreases 5 - k,
    {
        if k >= 5 || k < 0 {
            true
        } else {
            let end = col + tab_text_len(tab_at(k), self.badge_at(k)) + 1;
            end <= u16::MAX && (col <= x < end || self.hit_fits(x, end, k + 1))
        }
    }

    pub fn new() -> (s: Self)
        ensures
            s.active == TabId::Chat,
            forall|i: int| 0 <= i < 5 ==> s.badge_at(i) is None,
    {
        TabBarState { active: TabId::Chat, badges: [None; 5] }
    }

    /// Activate the next tab, wrapping after the last.
    pub fn next(&mut self)
        ensures
            final(self).active == tab_after(old(self).active),
            forall|i: int| 0 <= i < 5 ==> final(self).badge_at(i) == old(self).badge_at(i),
    {
        let idx = self.active.index();
        self.active = TabId::at((idx + 1) % 5);
    }

    /// Activate the previous tab, wrapping before the first.
    pub fn prev(&mut self)
        ensures
            final(self).active == tab_before(old(self).active),
            forall|i: int| 0 <= i < 5 ==> final(self).badge_at(i) == old(self).badge_at(i),
    {
        let idx = self.active.index();
        self.active = TabId::at((idx + 5 - 1) % 5);
    }

    /// Activate the tab at `index`; out of range does nothing.
    pub fn select(&mut self, index: usize)
        ensures
            index < 5 ==> final(self).active == tab_at(index as int),
            index >= 5 ==> final(self).active == old(self).active,
            forall|i: int| 0 <= i < 5 ==> final(self).badge_at(i) == old(self).badge_at(i),
    {
        if index < 5 {
            self.active = TabId::at(index);
        }
    }

    /// Set a tab's badge; a count of 0 clears it.
    pub fn set_badge(&mut self, tab: TabId, count: usize)
        ensures
            final(self).active == old(self).active,
            final(self).badge_at(tab_index(tab)) == if count > 0 {
                Some(count)
            } else {
                None
            },
            forall|i: int| 0 <= i < 5 && i != tab_index(tab) ==> final(self).badge_at(i) == old(self).badge_at(i),
    {
        let i = tab.index();
        self.badges.set(i, if count > 0 { Some(count) } else { None });
    }

    pub fn badge(&self, tab: TabId) -> (r: Option<usize>)
        ensures
            r == self.badge_at(tab_index(tab)),
    {
        self.badges[tab.index()]
    }

    /// The tab under a click at column `x`, for a strip starting at `area_x`.
    pub fn hit_test(&self, x: u16, area_x: u16) -> (r: Option<TabId>)
        requires
            area_x < u16::MAX,
            self.hit_fits(x as int, area_x + 1, 0),
        ensures
            r == self.hit_from(x as int, area_x + 1, 0),
    {
        let mut col: u16 = area_x + 1;
        let mut k: usize = 0;
        while k < 5
            invariant
                k <= 5,
                self.hit_fits(x as int, col as int, k as int),
                self.hit_from(x as int, col as int, k as int) == self.hit_from(
                    x as int,
                    area_x + 1,
                    0,
                ),
            decreases 5 - k,
        {
            let tab = TabId::at(k);
            let text_len: u16 = match self.badges[k] {
                Some(count) => tab.label_bytes() + decimal_digits(count) + 5,
                None => tab.label_bytes() + 2,
            };
            let end = col + text_len + 1;
            if x >= col && x < end {
                return Some(tab);
            }
            col = end;
            k = k + 1;
        }
        None
    }
}

impl Default for TabBarState {
    fn default() -> (s: Self)
        ensures
            s.active == TabId::Chat,
            forall|i: int| 0 <= i < 5 ==> s.badge_at(i) is None,
    {
        Self::new()
    }
}

/// The text a tab shows: " Label " without a badge, " Label (N) " with one.
pub open spec fn tab_text(t: TabId, badge: Option<usize>) -> Seq<char> {
    match badge {
        Some(c) => seq![' '] + tab_label(t) + seq![' ', '('] + decimal(c as nat) + seq![')', ' '],
        None => seq![' '] + tab_label(t) + seq![' '],
    }
}

/// Column where tab `k`'s text starts in a strip at `area_x`: one column of
/// padding, then each earlier tab's text and a separator column.
pub open spec fn tab_start(s: TabBarState, area_x: int, k: int) -> int
    decreases k,
{
    if k <= 0 {
        area_x + 1
    } else {
        tab_start(s, area_x, k - 1) + tab_text(tab_at(k - 1), s.badge_at(k - 1)).len() + 1
    }
}

proof fn lemma_decimal_len(n: nat)
    ensures
        decimal(n).len() == dec_digits(n),
    decreases n,
{
    if n >= 10 {
        lemma_decimal_len(n / 10);
    }
}

proof fn lemma_tab_text_len(t: TabId, badge: Option<usize>)
    ensures
        tab_text(t, badge).len() == tab_text_len(t, badge),
{
    match badge {
        Some(c) => lemma_decimal_len(c as nat),
        None => {},
    }
}

proof fn lemma_tab_start_mono(s: TabBarState, area_x: int, i: int, k: int)
    requires
        0 <= i <= k,
    ensures
        tab_start(s, area_x, i) + (k - i) <= tab_start(s, area_x, k),
    decreases k - i,
{
    if i < k {
        lemma_tab_start_mono(s, area_x, i, k - 1);
    }
}

proof fn lemma_hit_from_start(s: TabBarState, x: int, area_x: int, i: int, k: int)
    requires
        0 <= i <= k < 5,
        tab_start(s, area_x, k) <= x < tab_start(s, area_x, k + 1),
    ensures
        s.hit_from(x, tab_start(s, area_x, i), i) == Some(tab_at(k)),
    decreases k - i,
{
    lemma_tab_text_len(tab_at(i), s.badge_at(i));
    assert(tab_start(s, area_x, i + 1) == tab_start(s, area_x, i) + tab_text_len(
        tab_at(i),
        s.badge_at(i),
    ) + 1);
    if i < k {
        lemma_tab_start_mono(s, area_x, i + 1, k);
        lemma_hit_from_start(s, x, area_x, i + 1, k);
    }
}

proof fn lemma_hit_from_past(s: TabBarState, x: int, area_x: int, i: int)
    requires
        0 <= i <= 5,
        x >= tab_start(s, area_x, 5),
    ensures
        s.hit_from(x, tab_start(s, area_x, i), i) is None,
    decreases 5 - i,
{
    if i < 5 {
        lemma_tab_text_len(tab_at(i), s.badge_at(i));
        lemma_tab_start_mono(s, area_x, i + 1, 5);
        lemma_hit_from_past(s, x, area_x, i + 1);
    }
}

proof fn lemma_hit_from_before(s: TabBarState, x: int, col: int, i: int)
    requires
        0 <= i <= 5,
        x < col,
    ensures
        s.hit_from(x, col, i) is None,
    decreases 5 - i,
{
    if i < 5 {
        let end = col + tab_text_len(tab_at(i), s.badge_at(i)) + 1;
        lemma_tab_text_len(tab_at(i), s.badge_at(i));
        lemma_hit_from_before(s, x, end, i + 1);
    }
}

/// The tabs sit side by side from `area_x + 1`, each taking the columns of its
/// text (" Label " or " Label (N) ", the badge's digits included) plus one
/// separator: a click on any of tab `k`'s columns hits tab `k`, and a click left
/// of the strip or past the last separator hits nothing.
pub proof fn law_hit_test_tab_columns(s: TabBarState, x: int, area_x: int, k: int)
    ensures
        0 <= k < 5 && tab_start(s, area_x, k) <= x < tab_start(s, area_x, k + 1) ==> s.hit_from(
            x,
            area_x + 1,
            0,
        ) == Some(tab_at(k)),
        x < area_x + 1 || x >= tab_start(s, area_x, 5) ==> s.hit_from(x, area_x + 1, 0) is None,
{
    if 0 <= k < 5 && tab_start(s, area_x, k) <= x < tab_start(s, area_x, k + 1) {
        lemma_hit_from_start(s, x, area_x, 0, k);
    }
    if x < area_x + 1 {
        lemma_hit_from_before(s, x, area_x + 1, 0);
    } else if x >= tab_start(s, area_x, 5) {
        lemma_hit_from_past(s, x, area_x, 0);
    }
}

/// The tab after `t`, wrapping after the last.
pub open spec fn tab_after(t: TabId) -> TabId {
    tab_at((tab_index(t) + 1) % 5)
}

/// The tab before `t`, wrapping before the first.
pub open spec fn tab_before(t: TabId) -> TabId {
    tab_at((tab_index(t) + 4) % 5)
}

/// Going to the next tab and back, or back and then forward, returns to the
/// same tab; five steps forward go all the way round.
pub proof fn law_next_prev_inverse(t: TabId)
    ensures
        tab_before(tab_after(t)) == t,
        tab_after(tab_before(t)) == t,
        tab_after(tab_after(tab_after(tab_after(tab_after(t))))) == t,
{
}

} // verus!
