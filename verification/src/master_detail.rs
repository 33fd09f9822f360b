//! State of a master-detail panel: a filterable list of items with a
//! selection, and a scrollable text buffer showing the selected item.

use vstd::prelude::*;

use crate::input::{count_newlines, lemma_count_newlines_le};
use crate::text::{chars_of, contains_chars, contains_seq, lowercase, str_to_lowercase};

verus! {

/// A single entry in the master list.
#[derive(Debug, Clone)]
pub struct ListItem {
    pub label: String,
    pub status_icon: String,
    pub detail: String,
    /// Optional secondary line (e.g. args summary).
    pub subtitle: Option<String>,
}

impl ListItem {
    pub fn new(label: &str, status_icon: &str, detail: &str) -> (it: Self)
        ensures
            it.label@ == label@,
            it.status_icon@ == status_icon@,
            it.detail@ == detail@,
            it.subtitle is None,
    {
        ListItem {
            label: label.to_owned(),
            status_icon: status_icon.to_owned(),
            detail: detail.to_owned(),
            subtitle: None,
        }
    }

    pub fn with_subtitle(self, subtitle: &str) -> (it: Self)
        ensures
            it.label == self.label,
            it.status_icon == self.status_icon,
            it.detail == self.detail,
            it.subtitle matches Some(s) && s@ == subtitle@,
    {
        let mut it = self;
        it.subtitle = Some(subtitle.to_owned());
        it
    }
}

/// Which pane within a master-detail panel has focus.
#[derive(Debug, Clone, Copy, PartialEq, Eq, Structural)]
pub enum PanelFocus {
    Master,
    Detail,
}

impl Default for PanelFocus {
    fn default() -> (f: Self)
        ensures
            f == PanelFocus::Master,
    {
        PanelFocus::Master
    }
}

/// Number of lines `str::lines` yields: every newline ends a line, and a
/// non-empty last line without a newline counts too.
pub open spec fn lines_count(s: Seq<char>) -> nat {
    if s.len() == 0 {
        0
    } else if s.last() == '\n' {
        count_newlines(s)
    } else {
        count_newlines(s) + 1
    }
}

/// The items a filter keeps: all for an empty filter, else those whose
/// lowercased label contains it.
pub open spec fn filtered(items: Seq<ListItem>, filter: Seq<char>) -> Seq<ListItem> {
    if filter.len() == 0 {
        items
    } else {
        items.filter(|it: ListItem| contains_seq(lowercase(it.label@), filter))
    }
}

proof fn lemma_filter_step(s: Seq<ListItem>, j: int, pred: spec_fn(ListItem) -> bool)
    requires
        0 <= j < s.len(),
    ensures
        s.take(j + 1).filter(pred) == if pred(s[j]) {
            s.take(j).filter(pred).push(s[j])
        } else {
            s.take(j).filter(pred)
        },
{
    reveal(Seq::filter);
    assert(s.take(j + 1).drop_last() =~= s.take(j));
    assert(s.take(j + 1).last() == s[j]);
}

/// State for a master-detail (list + buffer) panel.
#[derive(Debug, Clone)]
pub struct MasterDetailState {
    pub items: Vec<ListItem>,
    /// Index into the visible (filtered) items.
    pub selected: usize,
    pub buffer: String,
    /// Scroll offset within the buffer panel.
    pub buffer_scroll: usize,
    /// Scroll offset within the list panel.
    pub list_scroll: usize,
    /// Lowercased filter text.
    pub filter: String,
    /// Which pane (list or buffer) currently has focus.
    pub focus: PanelFocus,
}

impl MasterDetailState {
    /// The items the current filter shows.
    pub open spec fn visible(&self) -> Seq<ListItem> {
        filtered(self.items@, self.filter@)
    }

    /// The selection points at a visible item, or is 0 when none is visible.
    /// `new` establishes it and every method keeps it (`set_filter`,
    /// `set_items` and `select_index` restore it outright).
    pub open spec fn selection_visible(&self) -> bool {
        self.selected == 0 || self.selected < self.visible().len()
    }

    pub fn new(items: Vec<ListItem>) -> (s: Self)
        ensures
            s.items@ == items@,
            s.selected == 0,
            s.buffer@.len() == 0,
            s.buffer_scroll == 0,
            s.list_scroll == 0,
            s.filter@.len() == 0,
            s.focus == PanelFocus::Master,
            s.selection_visible(),
    {
        MasterDetailState {
            items,
            selected: 0,
            buffer: String::new(),
            buffer_scroll: 0,
            list_scroll: 0,
            filter: String::new(),
            focus: PanelFocus::Master,
        }
    }

    pub fn selected_index(&self) -> (r: usize)
        ensures
            r == self.selected,
    {
        self.selected
    }

    /// The selected item among the visible ones.
    pub fn selected_item(&self) -> (r: Option<&ListItem>)
        ensures
            r == if self.selected < self.visible().len() {
                Some(&self.visible()[self.selected as int])
            } else {
                None
            },
            self.selection_visible() && self.visible().len() > 0 ==> r is Some,
    {
        let visible = self.visible_items();
        if self.selected < visible.len() {
            Some(visible[self.selected])
        } else {
            None
        }
    }

    /// The items the filter keeps, in order.
    pub fn visible_items(&self) -> (r: Vec<&ListItem>)
        ensures
            r@.len() == self.visible().len(),
            forall|i: int| 0 <= i < r@.len() ==> *r@[i] == self.visible()[i],
    {
        let n = self.items.len();
        let mut r: Vec<&ListItem> = Vec::new();
        let f = chars_of(self.filter.as_str());
        if f.len() == 0 {
            let mut i: usize = 0;
            while i < n
                invariant
                    n == self.items@.len(),
                    i <= n,
                    r@.len() == i,
                    forall|k: int| 0 <= k < i ==> *r@[k] == self.items@[k],
                decreases n - i,
            {
                r.push(&self.items[i]);
                i = i + 1;
            }
            return r;
        }
        let ghost pred = |it: ListItem| contains_seq(lowercase(it.label@), self.filter@);
        let ghost s = self.items@;
        let mut i: usize = 0;
        proof {
            reveal(Seq::filter);
            assert(s.take(0).filter(pred) =~= Seq::<ListItem>::empty());
        }
        while i < n
            invariant
                n == s.len(),
                s == self.items@,
                i <= n,
                f@ == self.filter@,
                pred == (|it: ListItem| contains_seq(lowercase(it.label@), self.filter@)),
                r@.len() == s.take(i as int).filter(pred).len(),
                forall|k: int| 0 <= k < r@.len() ==> *r@[k] == s.take(i as int).filter(pred)[k],
            decreases n - i,
        {
            let label = chars_of(str_to_lowercase(self.items[i].label.as_str()).as_str());
            let hit = contains_chars(&label, &f);
            proof {
                lemma_filter_step(s, i as int, pred);
            }
            if hit {
                r.push(&self.items[i]);
            }
            i = i + 1;
        }
        proof {
            assert(s.take(n as int) =~= s);
        }
        r
    }

    /// Select the next visible item, stopping at the last.
    pub fn select_next(&mut self)
        requires
            old(self).visible().len() > 0 ==> old(self).selected < usize::MAX,
        ensures
            final(self).selected == next_selection(
                old(self).selected as int,
                old(self).visible().len() as int,
            ),
            final(self).items == old(self).items,
            final(self).filter == old(self).filter,
            final(self).buffer == old(self).buffer,
            final(self).buffer_scroll == old(self).buffer_scroll,
            final(self).focus == old(self).focus,
            final(self).list_scroll == old(self).list_scroll,
            old(self).selection_visible() ==> final(self).selection_visible(),
    {
        let count = self.visible_items().len();
        if count > 0 {
            let next = self.selected + 1;
            self.selected = if next <= count - 1 { next } else { count - 1 };
        }
    }

    /// Select the previous item, stopping at the first.
    pub fn select_prev(&mut self)
        ensures
            final(self).selected == if old(self).selected > 0 {
                old(self).selected - 1
            } else {
                0
            },
            final(self).items == old(self).items,
            final(self).filter == old(self).filter,
            final(self).buffer == old(self).buffer,
            final(self).buffer_scroll == old(self).buffer_scroll,
            final(self).focus == old(self).focus,
            final(self).list_scroll == old(self).list_scroll,
            old(self).selection_visible() ==> final(self).selection_visible(),
    {
        self.selected = self.selected.saturating_sub(1);
    }

    /// Show `content` in the buffer, scrolled to the top.
    pub fn set_buffer(&mut self, content: String)
        ensures
            final(self).buffer@ == content@,
            final(self).buffer_scroll == 0,
            final(self).items == old(self).items,
            final(self).selected == old(self).selected,
            final(self).filter == old(self).filter,
            final(self).focus == old(self).focus,
            final(self).list_scroll == old(self).list_scroll,
            old(self).selection_visible() ==> final(self).selection_visible(),
    {
        self.buffer = content;
        self.buffer_scroll = 0;
    }

    pub fn buffer_content(&self) -> (r: &str)
        ensures
            r@ == self.buffer@,
    {
        self.buffer.as_str()
    }

    /// Set the filter (stored lowercased) and select the first item.
    pub fn set_filter(&mut self, filter: &str)
        ensures
            final(self).filter@ == lowercase(filter@),
            final(self).selected == 0,
            final(self).items == old(self).items,
            final(self).buffer == old(self).buffer,
            final(self).buffer_scroll == old(self).buffer_scroll,
            final(self).focus == old(self).focus,
            final(self).list_scroll == old(self).list_scroll,
            final(self).selection_visible(),
    {
        self.filter = str_to_lowercase(filter);
        self.selected = 0;
    }

    pub fn filter(&self) -> (r: &str)
        ensures
            r@ == self.filter@,
    {
        self.filter.as_str()
    }

    /// Replace the items; a selection past the new visible count moves to the last one.
    pub fn set_items(&mut self, items: Vec<ListItem>)
        ensures
            final(self).items@ == items@,
            final(self).selected == if old(self).selected >= final(self).visible().len() {
                if final(self).visible().len() > 0 {
                    final(self).visible().len() - 1
                } else {
                    0
                }
            } else {
                old(self).selected as int
            },
            final(self).filter == old(self).filter,
            final(self).buffer == old(self).buffer,
            final(self).buffer_scroll == old(self).buffer_scroll,
            final(self).focus == old(self).focus,
            final(self).list_scroll == old(self).list_scroll,
            final(self).selection_visible(),
    {
        self.items = items;
        let count = self.visible_items().len();
        if self.selected >= count {
            self.selected = count.saturating_sub(1);
        }
    }

    pub fn is_empty(&self) -> (b: bool)
        ensures
            b == (self.items@.len() == 0),
    {
        self.items.len() == 0
    }

    pub fn toggle_focus(&mut self)
        ensures
            final(self).focus == match old(self).focus {
                PanelFocus::Master => PanelFocus::Detail,
                PanelFocus::Detail => PanelFocus::Master,
            },
            final(self).items == old(self).items,
            final(self).selected == old(self).selected,
            final(self).buffer_scroll == old(self).buffer_scroll,
            final(self).buffer == old(self).buffer,
            final(self).list_scroll == old(self).list_scroll,
            final(self).filter == old(self).filter,
            old(self).selection_visible() ==> final(self).selection_visible(),
    {
        self.focus = match self.focus {
            PanelFocus::Master => PanelFocus::Detail,
            PanelFocus::Detail => PanelFocus::Master,
        };
    }

    pub fn focus_master(&mut self)
        ensures
            final(self).focus == PanelFocus::Master,
            final(self).items == old(self).items,
            final(self).selected == old(self).selected,
            final(self).buffer_scroll == old(self).buffer_scroll,
            final(self).buffer == old(self).buffer,
            final(self).list_scroll == old(self).list_scroll,
            final(self).filter == old(self).filter,
            old(self).selection_visible() ==> final(self).selection_visible(),
    {
        self.focus = PanelFocus::Master;
    }

    pub fn focus_detail(&mut self)
        ensures
            final(self).focus == PanelFocus::Detail,
            final(self).items == old(self).items,
            final(self).selected == old(self).selected,
            final(self).buffer_scroll == old(self).buffer_scroll,
            final(self).buffer == old(self).buffer,
            final(self).list_scroll == old(self).list_scroll,
            final(self).filter == old(self).filter,
            old(self).selection_visible() ==> final(self).selection_visible(),
    {
        self.focus = PanelFocus::Detail;
    }

    /// Select a visible item by index, clamped to the last one (0 when none is visible).
    pub fn select_index(&mut self, idx: usize)
        ensures
            final(self).selected == index_selection(idx as int, old(self).visible().len() as int),
            final(self).items == old(self).items,
            final(self).filter == old(self).filter,
            final(self).buffer_scroll == old(self).buffer_scroll,
            final(self).focus == old(self).focus,
            final(self).buffer == old(self).buffer,
            final(self).list_scroll == old(self).list_scroll,
            final(self).selection_visible(),
    {
        let count = self.visible_items().len();
        self.selected = if count == 0 {
            0
        } else if idx <= count - 1 {
            idx
        } else {
            count - 1
        };
    }

    pub fn scroll_buffer_up(&mut self, n: usize)
        ensures
            final(self).buffer_scroll == if old(self).buffer_scroll >= n {
                old(self).buffer_scroll - n
            } else {
                0
            },
            final(self).items == old(self).items,
            final(self).selected == old(self).selected,
            final(self).buffer == old(self).buffer,
            final(self).list_scroll == old(self).list_scroll,
            final(self).filter == old(self).filter,
            final(self).focus == old(self).focus,
            old(self).selection_visible() ==> final(self).selection_visible(),
    {
        self.buffer_scroll = self.buffer_scroll.saturating_sub(n);
    }

    pub fn scroll_buffer_down(&mut self, n: usize)
        ensures
            final(self).buffer_scroll == if old(self).buffer_scroll + n <= usize::MAX {
                old(self).buffer_scroll + n
            } else {
                usize::MAX as int
            },
            final(self).items == old(self).items,
            final(self).selected == old(self).selected,
            final(self).buffer == old(self).buffer,
            final(self).list_scroll == old(self).list_scroll,
            final(self).filter == old(self).filter,
            final(self).focus == old(self).focus,
            old(self).selection_visible() ==> final(self).selection_visible(),
    {
        self.buffer_scroll = self.buffer_scroll.saturating_add(n);
    }

    /// Clamp `buffer_scroll` so the last line of content stays visible in a
    /// viewport of `viewport_height` rows.
    pub fn clamp_buffer_scroll(&mut self, viewport_height: usize)
        ensures
            ({
                let total = lines_count(old(self).buffer@) as int;
                let max_scroll = if total >= viewport_height { total - viewport_height } else { 0 };
                final(self).buffer_scroll == if old(self).buffer_scroll <= max_scroll {
                    old(self).buffer_scroll as int
                } else {
                    max_scroll
                }
            }),
            final(self).items == old(self).items,
            final(self).selected == old(self).selected,
            final(self).buffer == old(self).buffer,
            final(self).list_scroll == old(self).list_scroll,
            final(self).filter == old(self).filter,
            final(self).focus == old(self).focus,
            old(self).selection_visible() ==> final(self).selection_visible(),
    {
        let chars = chars_of(self.buffer.as_str());
        let n = chars.len();
        let mut i: usize = 0;
        let mut newlines: usize = 0;
        while i < n
            invariant
                n == chars@.len(),
                i <= n,
                newlines == count_newlines(chars@.subrange(0, i as int)),
                newlines <= i,
            decreases n - i,
        {
            proof {
                assert(chars@.subrange(0, i + 1).drop_last() =~= chars@.subrange(0, i as int));
            }
            if chars[i] == '\n' {
                newlines = newlines + 1;
            }
            i = i + 1;
        }
        proof {
            assert(chars@.subrange(0, n as int) =~= chars@);
            if n > 0 {
                lemma_count_newlines_le(chars@.drop_last());
            }
        }
        let total = if n == 0 {
            0
        } else if chars[n - 1] == '\n' {
            newlines
        } else {
            newlines + 1
        };
        let max_scroll = total.saturating_sub(viewport_height);
        if self.buffer_scroll > max_scroll {
            self.buffer_scroll = max_scroll;
        }
    }
}

/// The selection after `select_next` with `n` visible items.
pub open spec fn next_selection(sel: int, n: int) -> int {
    if n == 0 {
        sel
    } else if sel + 1 <= n - 1 {
        sel + 1
    } else {
        n - 1
    }
}

/// The selection after `select_index(idx)` with `n` visible items.
pub open spec fn index_selection(idx: int, n: int) -> int {
    if n == 0 {
        0
    } else if idx <= n - 1 {
        idx
    } else {
        n - 1
    }
}

/// Navigation keeps a selection that points at a visible item pointing at
/// one, and `select_index` always lands on a visible item when there is one.
pub proof fn law_selection_stays_visible(sel: int, idx: int, n: int)
    requires
        0 <= sel < n,
        0 <= idx,
    ensures
        0 <= next_selection(sel, n) < n,
        0 <= (if sel > 0 { sel - 1 } else { 0 }) < n,
        0 <= index_selection(idx, n) < n,
{
}

/// Every visible item is one of the items, and its lowercased label
/// contains the (non-empty) filter.
pub proof fn law_filter_visible(items: Seq<ListItem>, filter: Seq<char>)
    ensures
        forall|i: int|
            0 <= i < filtered(items, filter).len() ==> items.contains(
                #[trigger] filtered(items, filter)[i],
            ),
        filter.len() > 0 ==> forall|i: int|
            0 <= i < filtered(items, filter).len() ==> contains_seq(
                lowercase((#[trigger] filtered(items, filter)[i]).label@),
                filter,
            ),
{
    let pred = |it: ListItem| contains_seq(lowercase(it.label@), filter);
    let f = filtered(items, filter);
    assert forall|i: int| 0 <= i < f.len() implies items.contains(#[trigger] f[i]) && (filter.len()
        > 0 ==> contains_seq(lowercase(f[i].label@), filter)) by {
        if filter.len() > 0 {
            assert(f.contains(f[i]));
            items.lemma_filter_contains_rev(pred, f[i]);
            items.lemma_filter_pred(pred, i);
        } else {
            assert(items[i] == f[i]);
        }
    }
}

/// After clamping, the scroll never passes the point where the last line
/// of content sits at the bottom of the viewport.
pub proof fn law_clamped_scroll(scroll: int, total: int, viewport: int)
    requires
        0 <= scroll,
        0 <= total,
        0 <= viewport,
    ensures
        ({
            let max_scroll = if total >= viewport { total - viewport } else { 0 };
            let clamped = if scroll <= max_scroll { scroll } else { max_scroll };
            &&& 0 <= clamped <= max_scroll
            &&& clamped + viewport >= total || clamped == scroll
        }),
{
}

impl Default for MasterDetailState {
    fn default() -> (s: Self)
        ensures
            s.items@.len() == 0,
            s.selected == 0,
            s.buffer@.len() == 0,
            s.buffer_scroll == 0,
            s.list_scroll == 0,
            s.filter@.len() == 0,
            s.focus == PanelFocus::Master,
    {
        Self::new(Vec::new())
    }
}

} // verus!
