//! Key bindings: the three presets (VS Code, Vim, Emacs), a binding map with
//! override and removal, and the resolver that turns a key press into an
//! action, honouring Vim's normal and insert modes.

use vstd::prelude::*;

verus! {

/// Which family of default bindings is active.
#[derive(Debug, Clone, Copy, PartialEq, Eq, Structural)]
pub enum KeybindPreset {
    Vscode,
    Vim,
    Emacs,
}

impl Default for KeybindPreset {
    fn default() -> (p: Self)
        ensures
            p == KeybindPreset::Vscode,
    {
        KeybindPreset::Vscode
    }
}

/// Something the interface can do in response to a key.
#[derive(Debug, Clone, Copy, PartialEq, Eq, Hash, Structural)]
pub enum Action {
    OpenPalette,
    OpenSessionSwitcher,
    ToggleSidebar,
    SearchTranscript,
    ClearTranscript,
    CancelGeneration,
    Exit,
    Dismiss,
    AcceptAutocomplete,
    SendMessage,
    NewlineInInput,
    ScrollUp,
    ScrollDown,
    PageUp,
    PageDown,
    ScrollToTop,
    ScrollToBottom,
    HalfPageUp,
    HalfPageDown,
    GrowSidebar,
    ShrinkSidebar,
    EnterCopyMode,
    YankSelection,
    NextSearchMatch,
    PrevSearchMatch,
    ShowKeybindOverlay,
    ApproveAction,
    RejectAction,
    ShowDiff,
    EnterInsertMode,
    EnterNormalMode,
    ReverseSearch,
    SetMark,
    CopySelection,
    ToggleTheme,
    ToggleDensity,
    OpenConnect,
    SelectTab1,
    SelectTab2,
    SelectTab3,
    SelectTab4,
    SelectTab5,
    NextTab,
    PrevTab,
}

/// A key, as the terminal reports it.
#[derive(Debug, Clone, Copy, PartialEq, Eq, Hash, Structural)]
pub enum KeyCode {
    Backspace,
    Enter,
    Left,
    Right,
    Up,
    Down,
    Home,
    End,
    PageUp,
    PageDown,
    Tab,
    BackTab,
    Delete,
    Insert,
    F(u8),
    Char(char),
    Null,
    Esc,
}

/// Names for the modifier bits carried with a key (shift 1, control 2, alt 4,
/// super 8, hyper 16, meta 32); a key's modifiers are the `u8` of their union.
pub struct KeyModifiers;

impl KeyModifiers {
    pub const NONE: u8 = 0;

    pub const SHIFT: u8 = 1;

    pub const CONTROL: u8 = 2;

    pub const ALT: u8 = 4;

    pub const SUPER: u8 = 8;

    pub const HYPER: u8 = 16;

    pub const META: u8 = 32;
}

/// Whether a key went down, repeated, or came up.
#[derive(Debug, Clone, Copy, PartialEq, Eq, Hash, Structural)]
pub enum KeyEventKind {
    Press,
    Repeat,
    Release,
}

/// A key event: the key, its modifiers and its kind.
#[derive(Debug, Clone, Copy, PartialEq, Eq, Hash, Structural)]
pub struct KeyEvent {
    pub code: KeyCode,
    pub modifiers: u8,
    pub kind: KeyEventKind,
}

impl KeyEvent {
    /// A key press.
    pub fn new(code: KeyCode, modifiers: u8) -> (e: Self)
        ensures
            e.code == code,
            e.modifiers == modifiers,
            e.kind == KeyEventKind::Press,
    {
        KeyEvent { code, modifiers, kind: KeyEventKind::Press }
    }
}

/// A key together with its modifiers: what a binding is keyed by.
#[derive(Debug, Clone, Copy, PartialEq, Eq, Hash, Structural)]
pub struct KeyCombo {
    pub code: KeyCode,
    pub modifiers: u8,
}

impl KeyCombo {
    pub fn new(code: KeyCode, modifiers: u8) -> (c: Self)
        ensures
            c.code == code,
            c.modifiers == modifiers,
    {
        KeyCombo { code, modifiers }
    }

    /// The combo of a key event (its code and modifiers).
    pub fn from_event(ev: &KeyEvent) -> (c: Self)
        ensures
            c.code == ev.code,
            c.modifiers == ev.modifiers,
    {
        KeyCombo { code: ev.code, modifiers: ev.modifiers }
    }
}

impl<'a> From<&'a KeyEvent> for KeyCombo {
    fn from(ev: &'a KeyEvent) -> (c: Self) {
        KeyCombo { code: ev.code, modifiers: ev.modifiers }
    }
}

impl<'a> vstd::std_specs::convert::FromSpecImpl<&'a KeyEvent> for KeyCombo {
    open spec fn obeys_from_spec() -> bool {
        true
    }

    open spec fn from_spec(ev: &'a KeyEvent) -> Self {
        KeyCombo { code: ev.code, modifiers: ev.modifiers }
    }
}

// ---------------------------------------------------------------------------
// KeybindMap
// ---------------------------------------------------------------------------

/// The action bound to `k` in a list of bindings (the first binding for `k`).
pub open spec fn lookup(s: Seq<(KeyCombo, Action)>, k: KeyCombo) -> Option<Action>
    decreases s.len(),
{
    if s.len() == 0 {
        None
    } else if s[0].0 == k {
        Some(s[0].1)
    } else {
        lookup(s.drop_first(), k)
    }
}

/// No key is bound twice.
pub open spec fn distinct_keys(s: Seq<(KeyCombo, Action)>) -> bool {
    forall|i: int, j: int| 0 <= i < j < s.len() ==> s[i].0 != s[j].0
}

proof fn lemma_lookup_found(s: Seq<(KeyCombo, Action)>, i: int)
    requires
        distinct_keys(s),
        0 <= i < s.len(),
    ensures
        lookup(s, s[i].0) == Some(s[i].1),
    decreases s.len(),
{
    if i > 0 {
        assert(s[0].0 != s[i].0);
        assert(distinct_keys(s.drop_first()));
        lemma_lookup_found(s.drop_first(), i - 1);
    }
}

proof fn lemma_lookup_absent(s: Seq<(KeyCombo, Action)>, k: KeyCombo)
    requires
        forall|i: int| 0 <= i < s.len() ==> s[i].0 != k,
    ensures
        lookup(s, k) is None,
    decreases s.len(),
{
    if s.len() > 0 {
        lemma_lookup_absent(s.drop_first(), k);
    }
}

proof fn lemma_lookup_cases(s: Seq<(KeyCombo, Action)>, k: KeyCombo)
    requires
        distinct_keys(s),
    ensures
        lookup(s, k) is None <==> (forall|i: int| 0 <= i < s.len() ==> s[i].0 != k),
        forall|i: int| 0 <= i < s.len() && s[i].0 == k ==> lookup(s, k) == Some(s[i].1),
{
    if exists|i: int| 0 <= i < s.len() && s[i].0 == k {
        let i = choose|i: int| 0 <= i < s.len() && s[i].0 == k;
        lemma_lookup_found(s, i);
    } else {
        lemma_lookup_absent(s, k);
    }
    assert forall|i: int| 0 <= i < s.len() && s[i].0 == k implies lookup(s, k) == Some(s[i].1) by {
        lemma_lookup_found(s, i);
    }
}

/// The bindings of a list, as a map.
pub open spec fn map_of(s: Seq<(KeyCombo, Action)>) -> Map<KeyCombo, Action> {
    Map::new(|k: KeyCombo| lookup(s, k) is Some, |k: KeyCombo| lookup(s, k)->0)
}

proof fn lemma_map_of(s: Seq<(KeyCombo, Action)>, k: KeyCombo)
    ensures
        map_of(s).dom().contains(k) == (lookup(s, k) is Some),
        lookup(s, k) is Some ==> map_of(s)[k] == lookup(s, k)->0,
{
}

proof fn lemma_map_of_update(
    s1: Seq<(KeyCombo, Action)>,
    s0: Seq<(KeyCombo, Action)>,
    combo: KeyCombo,
    r: Option<Action>,
)
    requires
        forall|k: KeyCombo| #[trigger] lookup(s1, k) == if k == combo {
            r
        } else {
            lookup(s0, k)
        },
    ensures
        r matches Some(a) ==> map_of(s1) == map_of(s0).insert(combo, a),
        r is None ==> map_of(s1) == map_of(s0).remove(combo),
{
    match r {
        Some(a) => {
            assert forall|k: KeyCombo| #[trigger] map_of(s1).dom().contains(k) == map_of(s0).insert(combo, a).dom().contains(k) by {
                lemma_map_of(s1, k);
                lemma_map_of(s0, k);
                assert(lookup(s1, k) == if k == combo { r } else { lookup(s0, k) });
            }
            assert forall|k: KeyCombo| #[trigger] map_of(s1).dom().contains(k) implies map_of(s1)[k] == map_of(s0).insert(combo, a)[k] by {
                lemma_map_of(s1, k);
                lemma_map_of(s0, k);
                assert(lookup(s1, k) == if k == combo { r } else { lookup(s0, k) });
            }
            assert(map_of(s1) =~= map_of(s0).insert(combo, a));
        },
        None => {
            assert forall|k: KeyCombo| #[trigger] map_of(s1).dom().contains(k) == map_of(s0).remove(combo).dom().contains(k) by {
                lemma_map_of(s1, k);
                lemma_map_of(s0, k);
                assert(lookup(s1, k) == if k == combo { r } else { lookup(s0, k) });
            }
            assert forall|k: KeyCombo| #[trigger] map_of(s1).dom().contains(k) implies map_of(s1)[k] == map_of(s0).remove(combo)[k] by {
                lemma_map_of(s1, k);
                lemma_map_of(s0, k);
                assert(lookup(s1, k) == if k == combo { r } else { lookup(s0, k) });
            }
            assert(map_of(s1) =~= map_of(s0).remove(combo));
        },
    }
}

/// Key bindings: each key combo bound to at most one action.
#[derive(Debug, Clone)]
pub struct KeybindMap {
    entries: Vec<(KeyCombo, Action)>,
}

impl KeybindMap {
    /// The bindings as a map from key combo to action.
    pub closed spec fn view(&self) -> Map<KeyCombo, Action> {
        map_of(self.entries@)
    }

    pub closed spec fn wf(&self) -> bool {
        distinct_keys(self.entries@)
    }

    pub fn new() -> (m: Self)
        ensures
            m.wf(),
            m.view() == Map::<KeyCombo, Action>::empty(),
    {
        let m = KeybindMap { entries: Vec::new() };
        assert(m.view() =~= Map::<KeyCombo, Action>::empty());
        m
    }

    /// Number of bound key combos.
    pub fn len(&self) -> (n: usize)
        requires
            self.wf(),
        ensures
            n == self.view().dom().len(),
    {
        proof {
            self.lemma_dom_len();
        }
        self.entries.len()
    }

    proof fn lemma_dom_len(&self)
        requires
            self.wf(),
        ensures
            self.view().dom().len() == self.entries@.len(),
            self.view().dom().finite(),
    {
        let s = self.entries@;
        let keys = s.map_values(|p: (KeyCombo, Action)| p.0);
        assert forall|i: int, j: int| 0 <= i < j < keys.len() implies keys[i] != keys[j] by {}
        keys.unique_seq_to_set();
        assert(self.view().dom() =~= keys.to_set()) by {
            assert forall|k: KeyCombo| #[trigger] self.view().dom().contains(k) <==> keys.to_set().contains(k) by {
                lemma_lookup_cases(s, k);
                if keys.to_set().contains(k) {
                    let i = choose|i: int| 0 <= i < keys.len() && keys[i] == k;
                    assert(s[i].0 == k);
                }
                if self.view().dom().contains(k) {
                    let i = choose|i: int| 0 <= i < s.len() && s[i].0 == k;
                    assert(keys[i] == k);
                }
            }
        }
    }

    /// The action bound to `combo`.
    pub fn get(&self, combo: &KeyCombo) -> (r: Option<Action>)
        requires
            self.wf(),
        ensures
            r == (if self.view().dom().contains(*combo) {
                Some(self.view()[*combo])
            } else {
                None
            }),
    {
        let n = self.entries.len();
        let mut i: usize = 0;
        while i < n
            invariant
                n == self.entries@.len(),
                i <= n,
                distinct_keys(self.entries@),
                forall|j: int| 0 <= j < i ==> self.entries@[j].0 != *combo,
            decreases n - i,
        {
            if self.entries[i].0 == *combo {
                proof {
                    lemma_lookup_found(self.entries@, i as int);
                }
                return Some(self.entries[i].1);
            }
            i = i + 1;
        }
        proof {
            lemma_lookup_absent(self.entries@, *combo);
        }
        None
    }

    /// Bind `combo` to `action`, replacing any earlier binding of `combo`.
    pub fn insert(&mut self, combo: KeyCombo, action: Action)
        requires
            old(self).wf(),
        ensures
            final(self).wf(),
            final(self).view() == old(self).view().insert(combo, action),
    {
        let ghost s0 = self.entries@;
        let n = self.entries.len();
        let mut i: usize = 0;
        while i < n
            invariant
                n == self.entries@.len(),
                self.entries@ == s0,
                s0 == old(self).entries@,
                distinct_keys(s0),
                i <= n,
                forall|j: int| 0 <= j < i ==> self.entries@[j].0 != combo,
            decreases n - i,
        {
            if self.entries[i].0 == combo {
                self.entries.set(i, (combo, action));
                proof {
                    let s1 = self.entries@;
                    assert(s1 =~= s0.update(i as int, (combo, action)));
                    assert(distinct_keys(s1)) by {
                        assert forall|x: int, y: int| 0 <= x < y < s1.len() implies s1[x].0 != s1[y].0 by {
                            assert(s1[x].0 == s0[x].0);
                            assert(s1[y].0 == s0[y].0);
                        }
                    }
                    assert(self.view() == old(self).view().insert(combo, action)) by {
                        assert forall|k: KeyCombo| true implies #[trigger] lookup(s1, k) == if k == combo {
                            Some(action)
                        } else {
                            lookup(s0, k)
                        } by {
                            lemma_lookup_cases(s1, k);
                            lemma_lookup_cases(s0, k);
                            if k != combo {
                                if exists|j: int| 0 <= j < s0.len() && s0[j].0 == k {
                                    let j = choose|j: int| 0 <= j < s0.len() && s0[j].0 == k;
                                    assert(s1[j] == s0[j]);
                                }
                            } else {
                                assert(s1[i as int].0 == k);
                            }
                        }
                        lemma_map_of_update(s1, s0, combo, Some(action));
                    }
                }
                return ;
            }
            i = i + 1;
        }
        self.entries.push((combo, action));
        proof {
            let s1 = self.entries@;
            assert(s1 =~= s0.push((combo, action)));
            assert(distinct_keys(s1)) by {
                assert forall|x: int, y: int| 0 <= x < y < s1.len() implies s1[x].0 != s1[y].0 by {
                    if y < n {
                        assert(s1[x] == s0[x]);
                        assert(s1[y] == s0[y]);
                    } else {
                        assert(s1[x] == s0[x]);
                    }
                }
            }
            assert(self.view() == old(self).view().insert(combo, action)) by {
                assert forall|k: KeyCombo| true implies #[trigger] lookup(s1, k) == if k == combo {
                    Some(action)
                } else {
                    lookup(s0, k)
                } by {
                    lemma_lookup_cases(s1, k);
                    lemma_lookup_cases(s0, k);
                    if k != combo {
                        if exists|j: int| 0 <= j < s0.len() && s0[j].0 == k {
                            let j = choose|j: int| 0 <= j < s0.len() && s0[j].0 == k;
                            assert(s1[j] == s0[j]);
                        }
                    } else {
                        assert(s1[n as int].0 == k);
                    }
                }
                lemma_map_of_update(s1, s0, combo, Some(action));
            }
        }
    }

    /// Unbind `combo`, returning the action it was bound to.
    pub fn remove(&mut self, combo: &KeyCombo) -> (r: Option<Action>)
        requires
            old(self).wf(),
        ensures
            final(self).wf(),
            final(self).view() == old(self).view().remove(*combo),
            r == (if old(self).view().dom().contains(*combo) {
                Some(old(self).view()[*combo])
            } else {
                None
            }),
    {
        let ghost s0 = self.entries@;
        let n = self.entries.len();
        let mut i: usize = 0;
        while i < n
            invariant
                n == self.entries@.len(),
                self.entries@ == s0,
                s0 == old(self).entries@,
                distinct_keys(s0),
                i <= n,
                forall|j: int| 0 <= j < i ==> self.entries@[j].0 != *combo,
            decreases n - i,
        {
            if self.entries[i].0 == *combo {
                let (_, a) = self.entries.remove(i);
                proof {
                    lemma_lookup_found(s0, i as int);
                    let s1 = self.entries@;
                    assert(s1 =~= s0.remove(i as int));
                    assert(distinct_keys(s1)) by {
                        assert forall|x: int, y: int| 0 <= x < y < s1.len() implies s1[x].0 != s1[y].0 by {
                            let xx = if x < i { x } else { x + 1 };
                            let yy = if y < i { y } else { y + 1 };
                            assert(xx < yy);
                            assert(s1[x] == s0[xx]);
                            assert(s1[y] == s0[yy]);
                        }
                    }
                    lemma_map_of(s0, *combo);
                    assert(self.view() == old(self).view().remove(*combo)) by {
                        assert forall|k: KeyCombo| true implies #[trigger] lookup(s1, k) == if k == *combo {
                            None
                        } else {
                            lookup(s0, k)
                        } by {
                            lemma_lookup_cases(s1, k);
                            lemma_lookup_cases(s0, k);
                            if k != *combo {
                                if exists|j: int| 0 <= j < s0.len() && s0[j].0 == k {
                                    let j = choose|j: int| 0 <= j < s0.len() && s0[j].0 == k;
                                    if j < i {
                                        assert(s1[j] == s0[j]);
                                    } else {
                                        assert(j != i);
                                        assert(s1[j - 1] == s0[j]);
                                    }
                                }
                                if exists|j: int| 0 <= j < s1.len() && s1[j].0 == k {
                                    let j = choose|j: int| 0 <= j < s1.len() && s1[j].0 == k;
                                    let jj = if j < i { j } else { j + 1 };
                                    assert(s1[j] == s0[jj]);
                                }
                            } else {
                                assert forall|j: int| 0 <= j < s1.len() implies s1[j].0 != k by {
                                    let jj = if j < i { j } else { j + 1 };
                                    assert(s1[j] == s0[jj]);
                                    assert(s0[i as int].0 == k);
                                }
                            }
                        }
                        lemma_map_of_update(s1, s0, *combo, None);
                    }
                }
                return Some(a);
            }
            i = i + 1;
        }
        proof {
            lemma_lookup_absent(s0, *combo);
            lemma_map_of(s0, *combo);
            assert(self.view() =~= old(self).view().remove(*combo));
        }
        None
    }

    /// The bound actions, one per binding.
    pub fn values(&self) -> (r: Vec<Action>)
        requires
            self.wf(),
        ensures
            forall|a: Action| r@.contains(a) <==> exists|k: KeyCombo| #[trigger] self.view().dom().contains(k) && self.view()[k] == a,
    {
        let n = self.entries.len();
        let mut r: Vec<Action> = Vec::new();
        let mut i: usize = 0;
        while i < n
            invariant
                n == self.entries@.len(),
                i <= n,
                r@ == self.entries@.subrange(0, i as int).map_values(|p: (KeyCombo, Action)| p.1),
            decreases n - i,
        {
            r.push(self.entries[i].1);
            proof {
                assert(self.entries@.subrange(0, i + 1).map_values(|p: (KeyCombo, Action)| p.1) =~= self.entries@.subrange(0, i as int).map_values(|p: (KeyCombo, Action)| p.1).push(self.entries@[i as int].1));
            }
            i = i + 1;
        }
        proof {
            let s = self.entries@;
            assert(s.subrange(0, n as int) =~= s);
            assert forall|a: Action| r@.contains(a) <==> exists|k: KeyCombo| #[trigger] self.view().dom().contains(k) && self.view()[k] == a by {
                if r@.contains(a) {
                    let j = choose|j: int| 0 <= j < r@.len() && r@[j] == a;
                    lemma_lookup_found(s, j);
                    assert(self.view().dom().contains(s[j].0));
                }
                if exists|k: KeyCombo| #[trigger] self.view().dom().contains(k) && self.view()[k] == a {
                    let k = choose|k: KeyCombo| #[trigger] self.view().dom().contains(k) && self.view()[k] == a;
                    lemma_lookup_cases(s, k);
                    let j = choose|j: int| 0 <= j < s.len() && s[j].0 == k;
                    assert(r@[j] == a);
                }
            }
        }
        r
    }

    /// All bindings as `(combo, action)` pairs, each combo once.
    pub fn pairs(&self) -> (r: Vec<(KeyCombo, Action)>)
        requires
            self.wf(),
        ensures
            distinct_keys(r@),
            forall|k: KeyCombo| lookup(r@, k) == (if self.view().dom().contains(k) {
                Some(self.view()[k])
            } else {
                None
            }),
    {
        let n = self.entries.len();
        let mut r: Vec<(KeyCombo, Action)> = Vec::new();
        let mut i: usize = 0;
        while i < n
            invariant
                n == self.entries@.len(),
                i <= n,
                r@ == self.entries@.subrange(0, i as int),
            decreases n - i,
        {
            r.push(self.entries[i]);
            proof {
                assert(self.entries@.subrange(0, i + 1) =~= self.entries@.subrange(0, i as int).push(self.entries@[i as int]));
            }
            i = i + 1;
        }
        proof {
            assert(r@ =~= self.entries@);
        }
        r
    }
}


/// The VS Code preset's bindings, in the order they are made (a later binding
/// of the same key replaces an earlier one).
pub open spec fn vscode_map() -> Map<KeyCombo, Action> {
    Map::<KeyCombo, Action>::empty()
        .insert(KeyCombo { code: KeyCode::Char('p'), modifiers: 2u8 }, Action::OpenPalette)
        .insert(KeyCombo { code: KeyCode::Char('o'), modifiers: 2u8 }, Action::OpenSessionSwitcher)
        .insert(KeyCombo { code: KeyCode::Char('e'), modifiers: 2u8 }, Action::ToggleSidebar)
        .insert(KeyCombo { code: KeyCode::Char('f'), modifiers: 2u8 }, Action::SearchTranscript)
        .insert(KeyCombo { code: KeyCode::Char('l'), modifiers: 2u8 }, Action::ClearTranscript)
        .insert(KeyCombo { code: KeyCode::Char('c'), modifiers: 2u8 }, Action::CancelGeneration)
        .insert(KeyCombo { code: KeyCode::Char('q'), modifiers: 2u8 }, Action::Exit)
        .insert(KeyCombo { code: KeyCode::Esc, modifiers: 0u8 }, Action::Dismiss)
        .insert(KeyCombo { code: KeyCode::Tab, modifiers: 0u8 }, Action::AcceptAutocomplete)
        .insert(KeyCombo { code: KeyCode::Enter, modifiers: 0u8 }, Action::SendMessage)
        .insert(KeyCombo { code: KeyCode::Enter, modifiers: 1u8 }, Action::NewlineInInput)
        .insert(KeyCombo { code: KeyCode::Up, modifiers: 0u8 }, Action::ScrollUp)
        .insert(KeyCombo { code: KeyCode::Down, modifiers: 0u8 }, Action::ScrollDown)
        .insert(KeyCombo { code: KeyCode::PageUp, modifiers: 0u8 }, Action::PageUp)
        .insert(KeyCombo { code: KeyCode::PageDown, modifiers: 0u8 }, Action::PageDown)
        .insert(KeyCombo { code: KeyCode::Char('['), modifiers: 0u8 }, Action::ShrinkSidebar)
        .insert(KeyCombo { code: KeyCode::Char(']'), modifiers: 0u8 }, Action::GrowSidebar)
        .insert(KeyCombo { code: KeyCode::Char('v'), modifiers: 0u8 }, Action::EnterCopyMode)
        .insert(KeyCombo { code: KeyCode::Char('y'), modifiers: 0u8 }, Action::YankSelection)
        .insert(KeyCombo { code: KeyCode::Char('n'), modifiers: 0u8 }, Action::NextSearchMatch)
        .insert(KeyCombo { code: KeyCode::Char('N'), modifiers: 1u8 }, Action::PrevSearchMatch)
        .insert(KeyCombo { code: KeyCode::Char('?'), modifiers: 0u8 }, Action::ShowKeybindOverlay)
        .insert(KeyCombo { code: KeyCode::Char('a'), modifiers: 0u8 }, Action::ApproveAction)
        .insert(KeyCombo { code: KeyCode::Char('r'), modifiers: 0u8 }, Action::RejectAction)
        .insert(KeyCombo { code: KeyCode::Char('d'), modifiers: 0u8 }, Action::ShowDiff)
        .insert(KeyCombo { code: KeyCode::F(6u8), modifiers: 0u8 }, Action::ToggleTheme)
        .insert(KeyCombo { code: KeyCode::F(7u8), modifiers: 0u8 }, Action::ToggleDensity)
        .insert(KeyCombo { code: KeyCode::Char('1'), modifiers: 4u8 }, Action::SelectTab1)
        .insert(KeyCombo { code: KeyCode::Char('2'), modifiers: 4u8 }, Action::SelectTab2)
        .insert(KeyCombo { code: KeyCode::Char('3'), modifiers: 4u8 }, Action::SelectTab3)
        .insert(KeyCombo { code: KeyCode::Char('4'), modifiers: 4u8 }, Action::SelectTab4)
        .insert(KeyCombo { code: KeyCode::Char('5'), modifiers: 4u8 }, Action::SelectTab5)
        .insert(KeyCombo { code: KeyCode::Char('l'), modifiers: 4u8 }, Action::NextTab)
        .insert(KeyCombo { code: KeyCode::Char('h'), modifiers: 4u8 }, Action::PrevTab)
}

pub fn default_vscode_bindings() -> (m: KeybindMap)
    ensures
        m.wf(),
        m.view() == vscode_map(),
{
    let mut m = KeybindMap::new();
    m.insert(KeyCombo::new(KeyCode::Char('p'), KeyModifiers::CONTROL), Action::OpenPalette);
    m.insert(KeyCombo::new(KeyCode::Char('o'), KeyModifiers::CONTROL), Action::OpenSessionSwitcher);
    m.insert(KeyCombo::new(KeyCode::Char('e'), KeyModifiers::CONTROL), Action::ToggleSidebar);
    m.insert(KeyCombo::new(KeyCode::Char('f'), KeyModifiers::CONTROL), Action::SearchTranscript);
    m.insert(KeyCombo::new(KeyCode::Char('l'), KeyModifiers::CONTROL), Action::ClearTranscript);
    m.insert(KeyCombo::new(KeyCode::Char('c'), KeyModifiers::CONTROL), Action::CancelGeneration);
    m.insert(KeyCombo::new(KeyCode::Char('q'), KeyModifiers::CONTROL), Action::Exit);
    m.insert(KeyCombo::new(KeyCode::Esc, KeyModifiers::NONE), Action::Dismiss);
    m.insert(KeyCombo::new(KeyCode::Tab, KeyModifiers::NONE), Action::AcceptAutocomplete);
    m.insert(KeyCombo::new(KeyCode::Enter, KeyModifiers::NONE), Action::SendMessage);
    m.insert(KeyCombo::new(KeyCode::Enter, KeyModifiers::SHIFT), Action::NewlineInInput);
    m.insert(KeyCombo::new(KeyCode::Up, KeyModifiers::NONE), Action::ScrollUp);
    m.insert(KeyCombo::new(KeyCode::Down, KeyModifiers::NONE), Action::ScrollDown);
    m.insert(KeyCombo::new(KeyCode::PageUp, KeyModifiers::NONE), Action::PageUp);
    m.insert(KeyCombo::new(KeyCode::PageDown, KeyModifiers::NONE), Action::PageDown);
    m.insert(KeyCombo::new(KeyCode::Char('['), KeyModifiers::NONE), Action::ShrinkSidebar);
    m.insert(KeyCombo::new(KeyCode::Char(']'), KeyModifiers::NONE), Action::GrowSidebar);
    m.insert(KeyCombo::new(KeyCode::Char('v'), KeyModifiers::NONE), Action::EnterCopyMode);
    m.insert(KeyCombo::new(KeyCode::Char('y'), KeyModifiers::NONE), Action::YankSelection);
    m.insert(KeyCombo::new(KeyCode::Char('n'), KeyModifiers::NONE), Action::NextSearchMatch);
    m.insert(KeyCombo::new(KeyCode::Char('N'), KeyModifiers::SHIFT), Action::PrevSearchMatch);
    m.insert(KeyCombo::new(KeyCode::Char('?'), KeyModifiers::NONE), Action::ShowKeybindOverlay);
    m.insert(KeyCombo::new(KeyCode::Char('a'), KeyModifiers::NONE), Action::ApproveAction);
    m.insert(KeyCombo::new(KeyCode::Char('r'), KeyModifiers::NONE), Action::RejectAction);
    m.insert(KeyCombo::new(KeyCode::Char('d'), KeyModifiers::NONE), Action::ShowDiff);
    m.insert(KeyCombo::new(KeyCode::F(6), KeyModifiers::NONE), Action::ToggleTheme);
    m.insert(KeyCombo::new(KeyCode::F(7), KeyModifiers::NONE), Action::ToggleDensity);
    // Tabs: Alt+1..5 jump to a tab, Alt+l / Alt+h cycle.
    m.insert(KeyCombo::new(KeyCode::Char('1'), KeyModifiers::ALT), Action::SelectTab1);
    m.insert(KeyCombo::new(KeyCode::Char('2'), KeyModifiers::ALT), Action::SelectTab2);
    m.insert(KeyCombo::new(KeyCode::Char('3'), KeyModifiers::ALT), Action::SelectTab3);
    m.insert(KeyCombo::new(KeyCode::Char('4'), KeyModifiers::ALT), Action::SelectTab4);
    m.insert(KeyCombo::new(KeyCode::Char('5'), KeyModifiers::ALT), Action::SelectTab5);
    m.insert(KeyCombo::new(KeyCode::Char('l'), KeyModifiers::ALT), Action::NextTab);
    m.insert(KeyCombo::new(KeyCode::Char('h'), KeyModifiers::ALT), Action::PrevTab);
    m
}

/// The Vim preset's bindings, in the order they are made (a later binding
/// of the same key replaces an earlier one).
pub open spec fn vim_map() -> Map<KeyCombo, Action> {
    Map::<KeyCombo, Action>::empty()
        .insert(KeyCombo { code: KeyCode::Esc, modifiers: 0u8 }, Action::EnterNormalMode)
        .insert(KeyCombo { code: KeyCode::Char('i'), modifiers: 0u8 }, Action::EnterInsertMode)
        .insert(KeyCombo { code: KeyCode::Char(':'), modifiers: 0u8 }, Action::OpenPalette)
        .insert(KeyCombo { code: KeyCode::Char('p'), modifiers: 2u8 }, Action::OpenPalette)
        .insert(KeyCombo { code: KeyCode::Char('o'), modifiers: 2u8 }, Action::OpenSessionSwitcher)
        .insert(KeyCombo { code: KeyCode::Char('e'), modifiers: 2u8 }, Action::ToggleSidebar)
        .insert(KeyCombo { code: KeyCode::Char('/'), modifiers: 0u8 }, Action::SearchTranscript)
        .insert(KeyCombo { code: KeyCode::Char('n'), modifiers: 0u8 }, Action::NextSearchMatch)
        .insert(KeyCombo { code: KeyCode::Char('N'), modifiers: 1u8 }, Action::PrevSearchMatch)
        .insert(KeyCombo { code: KeyCode::Char('j'), modifiers: 0u8 }, Action::ScrollDown)
        .insert(KeyCombo { code: KeyCode::Char('k'), modifiers: 0u8 }, Action::ScrollUp)
        .insert(KeyCombo { code: KeyCode::Home, modifiers: 2u8 }, Action::ScrollToTop)
        .insert(KeyCombo { code: KeyCode::End, modifiers: 0u8 }, Action::ScrollToBottom)
        .insert(KeyCombo { code: KeyCode::Char('u'), modifiers: 2u8 }, Action::HalfPageUp)
        .insert(KeyCombo { code: KeyCode::Char('d'), modifiers: 2u8 }, Action::HalfPageDown)
        .insert(KeyCombo { code: KeyCode::PageUp, modifiers: 0u8 }, Action::PageUp)
        .insert(KeyCombo { code: KeyCode::PageDown, modifiers: 0u8 }, Action::PageDown)
        .insert(KeyCombo { code: KeyCode::Up, modifiers: 0u8 }, Action::ScrollUp)
        .insert(KeyCombo { code: KeyCode::Down, modifiers: 0u8 }, Action::ScrollDown)
        .insert(KeyCombo { code: KeyCode::Enter, modifiers: 0u8 }, Action::SendMessage)
        .insert(KeyCombo { code: KeyCode::Enter, modifiers: 1u8 }, Action::NewlineInInput)
        .insert(KeyCombo { code: KeyCode::Tab, modifiers: 0u8 }, Action::AcceptAutocomplete)
        .insert(KeyCombo { code: KeyCode::Char('c'), modifiers: 2u8 }, Action::CancelGeneration)
        .insert(KeyCombo { code: KeyCode::Char('l'), modifiers: 2u8 }, Action::ClearTranscript)
        .insert(KeyCombo { code: KeyCode::Char('q'), modifiers: 0u8 }, Action::Exit)
        .insert(KeyCombo { code: KeyCode::Char('q'), modifiers: 2u8 }, Action::Exit)
        .insert(KeyCombo { code: KeyCode::Char('v'), modifiers: 0u8 }, Action::EnterCopyMode)
        .insert(KeyCombo { code: KeyCode::Char('y'), modifiers: 0u8 }, Action::YankSelection)
        .insert(KeyCombo { code: KeyCode::Char('['), modifiers: 0u8 }, Action::ShrinkSidebar)
        .insert(KeyCombo { code: KeyCode::Char(']'), modifiers: 0u8 }, Action::GrowSidebar)
        .insert(KeyCombo { code: KeyCode::Char('a'), modifiers: 0u8 }, Action::ApproveAction)
        .insert(KeyCombo { code: KeyCode::Char('r'), modifiers: 0u8 }, Action::RejectAction)
        .insert(KeyCombo { code: KeyCode::Char('?'), modifiers: 0u8 }, Action::ShowKeybindOverlay)
        .insert(KeyCombo { code: KeyCode::F(6u8), modifiers: 0u8 }, Action::ToggleTheme)
        .insert(KeyCombo { code: KeyCode::F(7u8), modifiers: 0u8 }, Action::ToggleDensity)
        .insert(KeyCombo { code: KeyCode::Char('1'), modifiers: 4u8 }, Action::SelectTab1)
        .insert(KeyCombo { code: KeyCode::Char('2'), modifiers: 4u8 }, Action::SelectTab2)
        .insert(KeyCombo { code: KeyCode::Char('3'), modifiers: 4u8 }, Action::SelectTab3)
        .insert(KeyCombo { code: KeyCode::Char('4'), modifiers: 4u8 }, Action::SelectTab4)
        .insert(KeyCombo { code: KeyCode::Char('5'), modifiers: 4u8 }, Action::SelectTab5)
        .insert(KeyCombo { code: KeyCode::Char('l'), modifiers: 4u8 }, Action::NextTab)
        .insert(KeyCombo { code: KeyCode::Char('h'), modifiers: 4u8 }, Action::PrevTab)
}

pub fn default_vim_bindings() -> (m: KeybindMap)
    ensures
        m.wf(),
        m.view() == vim_map(),
{
    let mut m = KeybindMap::new();
    m.insert(KeyCombo::new(KeyCode::Esc, KeyModifiers::NONE), Action::EnterNormalMode);
    m.insert(KeyCombo::new(KeyCode::Char('i'), KeyModifiers::NONE), Action::EnterInsertMode);
    m.insert(KeyCombo::new(KeyCode::Char(':'), KeyModifiers::NONE), Action::OpenPalette);
    m.insert(KeyCombo::new(KeyCode::Char('p'), KeyModifiers::CONTROL), Action::OpenPalette);
    m.insert(KeyCombo::new(KeyCode::Char('o'), KeyModifiers::CONTROL), Action::OpenSessionSwitcher);
    m.insert(KeyCombo::new(KeyCode::Char('e'), KeyModifiers::CONTROL), Action::ToggleSidebar);
    m.insert(KeyCombo::new(KeyCode::Char('/'), KeyModifiers::NONE), Action::SearchTranscript);
    m.insert(KeyCombo::new(KeyCode::Char('n'), KeyModifiers::NONE), Action::NextSearchMatch);
    m.insert(KeyCombo::new(KeyCode::Char('N'), KeyModifiers::SHIFT), Action::PrevSearchMatch);
    m.insert(KeyCombo::new(KeyCode::Char('j'), KeyModifiers::NONE), Action::ScrollDown);
    m.insert(KeyCombo::new(KeyCode::Char('k'), KeyModifiers::NONE), Action::ScrollUp);
    m.insert(KeyCombo::new(KeyCode::Home, KeyModifiers::CONTROL), Action::ScrollToTop);
    m.insert(KeyCombo::new(KeyCode::End, KeyModifiers::NONE), Action::ScrollToBottom);
    m.insert(KeyCombo::new(KeyCode::Char('u'), KeyModifiers::CONTROL), Action::HalfPageUp);
    m.insert(KeyCombo::new(KeyCode::Char('d'), KeyModifiers::CONTROL), Action::HalfPageDown);
    m.insert(KeyCombo::new(KeyCode::PageUp, KeyModifiers::NONE), Action::PageUp);
    m.insert(KeyCombo::new(KeyCode::PageDown, KeyModifiers::NONE), Action::PageDown);
    m.insert(KeyCombo::new(KeyCode::Up, KeyModifiers::NONE), Action::ScrollUp);
    m.insert(KeyCombo::new(KeyCode::Down, KeyModifiers::NONE), Action::ScrollDown);
    m.insert(KeyCombo::new(KeyCode::Enter, KeyModifiers::NONE), Action::SendMessage);
    m.insert(KeyCombo::new(KeyCode::Enter, KeyModifiers::SHIFT), Action::NewlineInInput);
    m.insert(KeyCombo::new(KeyCode::Tab, KeyModifiers::NONE), Action::AcceptAutocomplete);
    m.insert(KeyCombo::new(KeyCode::Char('c'), KeyModifiers::CONTROL), Action::CancelGeneration);
    m.insert(KeyCombo::new(KeyCode::Char('l'), KeyModifiers::CONTROL), Action::ClearTranscript);
    m.insert(KeyCombo::new(KeyCode::Char('q'), KeyModifiers::NONE), Action::Exit);
    m.insert(KeyCombo::new(KeyCode::Char('q'), KeyModifiers::CONTROL), Action::Exit);
    m.insert(KeyCombo::new(KeyCode::Char('v'), KeyModifiers::NONE), Action::EnterCopyMode);
    m.insert(KeyCombo::new(KeyCode::Char('y'), KeyModifiers::NONE), Action::YankSelection);
    m.insert(KeyCombo::new(KeyCode::Char('['), KeyModifiers::NONE), Action::ShrinkSidebar);
    m.insert(KeyCombo::new(KeyCode::Char(']'), KeyModifiers::NONE), Action::GrowSidebar);
    m.insert(KeyCombo::new(KeyCode::Char('a'), KeyModifiers::NONE), Action::ApproveAction);
    m.insert(KeyCombo::new(KeyCode::Char('r'), KeyModifiers::NONE), Action::RejectAction);
    m.insert(KeyCombo::new(KeyCode::Char('?'), KeyModifiers::NONE), Action::ShowKeybindOverlay);
    m.insert(KeyCombo::new(KeyCode::F(6), KeyModifiers::NONE), Action::ToggleTheme);
    m.insert(KeyCombo::new(KeyCode::F(7), KeyModifiers::NONE), Action::ToggleDensity);
    // Tabs: Alt+1..5 jump to a tab, Alt+l / Alt+h cycle.
    m.insert(KeyCombo::new(KeyCode::Char('1'), KeyModifiers::ALT), Action::SelectTab1);
    m.insert(KeyCombo::new(KeyCode::Char('2'), KeyModifiers::ALT), Action::SelectTab2);
    m.insert(KeyCombo::new(KeyCode::Char('3'), KeyModifiers::ALT), Action::SelectTab3);
    m.insert(KeyCombo::new(KeyCode::Char('4'), KeyModifiers::ALT), Action::SelectTab4);
    m.insert(KeyCombo::new(KeyCode::Char('5'), KeyModifiers::ALT), Action::SelectTab5);
    m.insert(KeyCombo::new(KeyCode::Char('l'), KeyModifiers::ALT), Action::NextTab);
    m.insert(KeyCombo::new(KeyCode::Char('h'), KeyModifiers::ALT), Action::PrevTab);
    m
}

/// The Emacs preset's bindings, in the order they are made (a later binding
/// of the same key replaces an earlier one).
pub open spec fn emacs_map() -> Map<KeyCombo, Action> {
    Map::<KeyCombo, Action>::empty()
        .insert(KeyCombo { code: KeyCode::Char('x'), modifiers: 4u8 }, Action::OpenPalette)
        .insert(KeyCombo { code: KeyCode::Char('p'), modifiers: 2u8 }, Action::OpenPalette)
        .insert(KeyCombo { code: KeyCode::Char('o'), modifiers: 2u8 }, Action::OpenSessionSwitcher)
        .insert(KeyCombo { code: KeyCode::Char('g'), modifiers: 2u8 }, Action::Dismiss)
        .insert(KeyCombo { code: KeyCode::Esc, modifiers: 0u8 }, Action::Dismiss)
        .insert(KeyCombo { code: KeyCode::Char('s'), modifiers: 2u8 }, Action::SearchTranscript)
        .insert(KeyCombo { code: KeyCode::Char('r'), modifiers: 2u8 }, Action::ReverseSearch)
        .insert(KeyCombo { code: KeyCode::Char('n'), modifiers: 2u8 }, Action::ScrollDown)
        .insert(KeyCombo { code: KeyCode::Char('p'), modifiers: 2u8 }, Action::ScrollUp)
        .insert(KeyCombo { code: KeyCode::Char('v'), modifiers: 2u8 }, Action::PageDown)
        .insert(KeyCombo { code: KeyCode::Char('v'), modifiers: 4u8 }, Action::PageUp)
        .insert(KeyCombo { code: KeyCode::Up, modifiers: 0u8 }, Action::ScrollUp)
        .insert(KeyCombo { code: KeyCode::Down, modifiers: 0u8 }, Action::ScrollDown)
        .insert(KeyCombo { code: KeyCode::PageUp, modifiers: 0u8 }, Action::PageUp)
        .insert(KeyCombo { code: KeyCode::PageDown, modifiers: 0u8 }, Action::PageDown)
        .insert(KeyCombo { code: KeyCode::Char('a'), modifiers: 2u8 }, Action::ScrollToTop)
        .insert(KeyCombo { code: KeyCode::Char('e'), modifiers: 2u8 }, Action::ScrollToBottom)
        .insert(KeyCombo { code: KeyCode::Enter, modifiers: 0u8 }, Action::SendMessage)
        .insert(KeyCombo { code: KeyCode::Enter, modifiers: 1u8 }, Action::NewlineInInput)
        .insert(KeyCombo { code: KeyCode::Tab, modifiers: 0u8 }, Action::AcceptAutocomplete)
        .insert(KeyCombo { code: KeyCode::Char('c'), modifiers: 2u8 }, Action::CancelGeneration)
        .insert(KeyCombo { code: KeyCode::Char('l'), modifiers: 2u8 }, Action::ClearTranscript)
        .insert(KeyCombo { code: KeyCode::Char('q'), modifiers: 2u8 }, Action::Exit)
        .insert(KeyCombo { code: KeyCode::Char(' '), modifiers: 2u8 }, Action::SetMark)
        .insert(KeyCombo { code: KeyCode::Char('w'), modifiers: 4u8 }, Action::CopySelection)
        .insert(KeyCombo { code: KeyCode::Char('['), modifiers: 0u8 }, Action::ShrinkSidebar)
        .insert(KeyCombo { code: KeyCode::Char(']'), modifiers: 0u8 }, Action::GrowSidebar)
        .insert(KeyCombo { code: KeyCode::Char('a'), modifiers: 0u8 }, Action::ApproveAction)
        .insert(KeyCombo { code: KeyCode::Char('r'), modifiers: 0u8 }, Action::RejectAction)
        .insert(KeyCombo { code: KeyCode::Char('?'), modifiers: 0u8 }, Action::ShowKeybindOverlay)
        .insert(KeyCombo { code: KeyCode::F(6u8), modifiers: 0u8 }, Action::ToggleTheme)
        .insert(KeyCombo { code: KeyCode::F(7u8), modifiers: 0u8 }, Action::ToggleDensity)
        .insert(KeyCombo { code: KeyCode::Char('1'), modifiers: 4u8 }, Action::SelectTab1)
        .insert(KeyCombo { code: KeyCode::Char('2'), modifiers: 4u8 }, Action::SelectTab2)
        .insert(KeyCombo { code: KeyCode::Char('3'), modifiers: 4u8 }, Action::SelectTab3)
        .insert(KeyCombo { code: KeyCode::Char('4'), modifiers: 4u8 }, Action::SelectTab4)
        .insert(KeyCombo { code: KeyCode::Char('5'), modifiers: 4u8 }, Action::SelectTab5)
        .insert(KeyCombo { code: KeyCode::Char('l'), modifiers: 4u8 }, Action::NextTab)
        .insert(KeyCombo { code: KeyCode::Char('h'), modifiers: 4u8 }, Action::PrevTab)
}

pub fn default_emacs_bindings() -> (m: KeybindMap)
    ensures
        m.wf(),
        m.view() == emacs_map(),
{
    let mut m = KeybindMap::new();
    m.insert(KeyCombo::new(KeyCode::Char('x'), KeyModifiers::ALT), Action::OpenPalette);
    m.insert(KeyCombo::new(KeyCode::Char('p'), KeyModifiers::CONTROL), Action::OpenPalette);
    m.insert(KeyCombo::new(KeyCode::Char('o'), KeyModifiers::CONTROL), Action::OpenSessionSwitcher);
    m.insert(KeyCombo::new(KeyCode::Char('g'), KeyModifiers::CONTROL), Action::Dismiss);
    m.insert(KeyCombo::new(KeyCode::Esc, KeyModifiers::NONE), Action::Dismiss);
    m.insert(KeyCombo::new(KeyCode::Char('s'), KeyModifiers::CONTROL), Action::SearchTranscript);
    m.insert(KeyCombo::new(KeyCode::Char('r'), KeyModifiers::CONTROL), Action::ReverseSearch);
    m.insert(KeyCombo::new(KeyCode::Char('n'), KeyModifiers::CONTROL), Action::ScrollDown);
    m.insert(KeyCombo::new(KeyCode::Char('p'), KeyModifiers::CONTROL), Action::ScrollUp);
    m.insert(KeyCombo::new(KeyCode::Char('v'), KeyModifiers::CONTROL), Action::PageDown);
    m.insert(KeyCombo::new(KeyCode::Char('v'), KeyModifiers::ALT), Action::PageUp);
    m.insert(KeyCombo::new(KeyCode::Up, KeyModifiers::NONE), Action::ScrollUp);
    m.insert(KeyCombo::new(KeyCode::Down, KeyModifiers::NONE), Action::ScrollDown);
    m.insert(KeyCombo::new(KeyCode::PageUp, KeyModifiers::NONE), Action::PageUp);
    m.insert(KeyCombo::new(KeyCode::PageDown, KeyModifiers::NONE), Action::PageDown);
    m.insert(KeyCombo::new(KeyCode::Char('a'), KeyModifiers::CONTROL), Action::ScrollToTop);
    m.insert(KeyCombo::new(KeyCode::Char('e'), KeyModifiers::CONTROL), Action::ScrollToBottom);
    m.insert(KeyCombo::new(KeyCode::Enter, KeyModifiers::NONE), Action::SendMessage);
    m.insert(KeyCombo::new(KeyCode::Enter, KeyModifiers::SHIFT), Action::NewlineInInput);
    m.insert(KeyCombo::new(KeyCode::Tab, KeyModifiers::NONE), Action::AcceptAutocomplete);
    m.insert(KeyCombo::new(KeyCode::Char('c'), KeyModifiers::CONTROL), Action::CancelGeneration);
    m.insert(KeyCombo::new(KeyCode::Char('l'), KeyModifiers::CONTROL), Action::ClearTranscript);
    m.insert(KeyCombo::new(KeyCode::Char('q'), KeyModifiers::CONTROL), Action::Exit);
    m.insert(KeyCombo::new(KeyCode::Char(' '), KeyModifiers::CONTROL), Action::SetMark);
    m.insert(KeyCombo::new(KeyCode::Char('w'), KeyModifiers::ALT), Action::CopySelection);
    m.insert(KeyCombo::new(KeyCode::Char('['), KeyModifiers::NONE), Action::ShrinkSidebar);
    m.insert(KeyCombo::new(KeyCode::Char(']'), KeyModifiers::NONE), Action::GrowSidebar);
    m.insert(KeyCombo::new(KeyCode::Char('a'), KeyModifiers::NONE), Action::ApproveAction);
    m.insert(KeyCombo::new(KeyCode::Char('r'), KeyModifiers::NONE), Action::RejectAction);
    m.insert(KeyCombo::new(KeyCode::Char('?'), KeyModifiers::NONE), Action::ShowKeybindOverlay);
    m.insert(KeyCombo::new(KeyCode::F(6), KeyModifiers::NONE), Action::ToggleTheme);
    m.insert(KeyCombo::new(KeyCode::F(7), KeyModifiers::NONE), Action::ToggleDensity);
    // Tabs: Alt+1..5 jump to a tab, Alt+l / Alt+h cycle.
    m.insert(KeyCombo::new(KeyCode::Char('1'), KeyModifiers::ALT), Action::SelectTab1);
    m.insert(KeyCombo::new(KeyCode::Char('2'), KeyModifiers::ALT), Action::SelectTab2);
    m.insert(KeyCombo::new(KeyCode::Char('3'), KeyModifiers::ALT), Action::SelectTab3);
    m.insert(KeyCombo::new(KeyCode::Char('4'), KeyModifiers::ALT), Action::SelectTab4);
    m.insert(KeyCombo::new(KeyCode::Char('5'), KeyModifiers::ALT), Action::SelectTab5);
    m.insert(KeyCombo::new(KeyCode::Char('l'), KeyModifiers::ALT), Action::NextTab);
    m.insert(KeyCombo::new(KeyCode::Char('h'), KeyModifiers::ALT), Action::PrevTab);
    m
}

/// The bindings of `preset`.
pub open spec fn preset_map(preset: KeybindPreset) -> Map<KeyCombo, Action> {
    match preset {
        KeybindPreset::Vscode => vscode_map(),
        KeybindPreset::Vim => vim_map(),
        KeybindPreset::Emacs => emacs_map(),
    }
}

pub fn bindings_for_preset(preset: KeybindPreset) -> (m: KeybindMap)
    ensures
        m.wf(),
        m.view() == preset_map(preset),
{
    match preset {
        KeybindPreset::Vscode => default_vscode_bindings(),
        KeybindPreset::Vim => default_vim_bindings(),
        KeybindPreset::Emacs => default_emacs_bindings(),
    }
}

// ---------------------------------------------------------------------------
// InputMode and KeybindResolver
// ---------------------------------------------------------------------------

/// Vim modal editing state. Only meaningful when the preset is Vim.
#[derive(Debug, Clone, Copy, PartialEq, Eq, Structural)]
pub enum InputMode {
    Normal,
    Insert,
}

impl Default for InputMode {
    fn default() -> (m: Self)
        ensures
            m == InputMode::Normal,
    {
        InputMode::Normal
    }
}

/// Under the Vim preset, actions that the current mode does not allow:
/// navigation, palette, search, copy mode and re-entering insert mode while
/// inserting; sending and newlines while in normal mode.
pub open spec fn suppressed(preset: KeybindPreset, mode: InputMode, a: Action) -> bool {
    preset == KeybindPreset::Vim && match mode {
        InputMode::Insert => match a {
            Action::ScrollDown | Action::ScrollUp | Action::ScrollToTop | Action::ScrollToBottom
            | Action::HalfPageUp | Action::HalfPageDown | Action::OpenPalette
            | Action::SearchTranscript | Action::EnterCopyMode | Action::EnterInsertMode => true,
            _ => false,
        },
        InputMode::Normal => match a {
            Action::SendMessage | Action::NewlineInInput => true,
            _ => false,
        },
    }
}

/// The action that `key` triggers with `bindings` under `preset` and `mode`:
/// only presses of a bound combo count, and not when the mode suppresses
/// the bound action.
pub open spec fn resolution(
    bindings: Map<KeyCombo, Action>,
    preset: KeybindPreset,
    mode: InputMode,
    key: KeyEvent,
) -> Option<Action> {
    let combo = KeyCombo { code: key.code, modifiers: key.modifiers };
    if key.kind != KeyEventKind::Press || !bindings.dom().contains(combo) {
        None
    } else if suppressed(preset, mode, bindings[combo]) {
        None
    } else {
        Some(bindings[combo])
    }
}

/// A press of `combo`.
pub open spec fn press(combo: KeyCombo) -> KeyEvent {
    KeyEvent { code: combo.code, modifiers: combo.modifiers, kind: KeyEventKind::Press }
}

/// Once `combo` is bound to `action`, pressing it triggers `action`, unless
/// the Vim mode suppresses that action.
pub proof fn law_override_then_resolve(
    bindings: Map<KeyCombo, Action>,
    preset: KeybindPreset,
    mode: InputMode,
    combo: KeyCombo,
    action: Action,
)
    requires
        !suppressed(preset, mode, action),
    ensures
        resolution(bindings.insert(combo, action), preset, mode, press(combo)) == Some(action),
{
}

/// Once the binding of `combo` is removed, no event on `combo` triggers anything.
pub proof fn law_remove_then_resolve(
    bindings: Map<KeyCombo, Action>,
    preset: KeybindPreset,
    mode: InputMode,
    key: KeyEvent,
)
    ensures
        resolution(
            bindings.remove(KeyCombo { code: key.code, modifiers: key.modifiers }),
            preset,
            mode,
            key,
        ) is None,
{
}

/// Key releases and repeats never trigger an action.
pub proof fn law_only_presses_resolve(
    bindings: Map<KeyCombo, Action>,
    preset: KeybindPreset,
    mode: InputMode,
    key: KeyEvent,
)
    requires
        key.kind != KeyEventKind::Press,
    ensures
        resolution(bindings, preset, mode, key) is None,
{
}

/// Every preset exits on Ctrl+Q, in every mode.
pub proof fn law_ctrl_q_exits(preset: KeybindPreset, mode: InputMode)
    ensures
        resolution(
            preset_map(preset),
            preset,
            mode,
            press(KeyCombo { code: KeyCode::Char('q'), modifiers: KeyModifiers::CONTROL }),
        ) == Some(Action::Exit),
{
    let c = KeyCombo { code: KeyCode::Char('q'), modifiers: KeyModifiers::CONTROL };
    assert(preset_map(preset).dom().contains(c) && preset_map(preset)[c] == Action::Exit);
}

/// Under the Vim preset in Insert mode, a press of a key bound to a
/// normal-mode-only action (scrolling, paging, the palette, search, copy mode,
/// or entering insert mode again) triggers nothing, so the key is typed as
/// text; a press of a key bound to anything else triggers its action. The same
/// press in Normal mode triggers its action unless that is sending or a newline.
pub proof fn law_vim_insert_mode_types_normal_keys(
    bindings: Map<KeyCombo, Action>,
    combo: KeyCombo,
)
    requires
        bindings.dom().contains(combo),
    ensures
        ({
            let a = bindings[combo];
            let normal_only = a == Action::ScrollDown || a == Action::ScrollUp || a
                == Action::ScrollToTop || a == Action::ScrollToBottom || a == Action::HalfPageUp
                || a == Action::HalfPageDown || a == Action::OpenPalette || a
                == Action::SearchTranscript || a == Action::EnterCopyMode || a
                == Action::EnterInsertMode;
            &&& normal_only ==> resolution(
                bindings,
                KeybindPreset::Vim,
                InputMode::Insert,
                press(combo),
            ) is None
            &&& !normal_only ==> resolution(
                bindings,
                KeybindPreset::Vim,
                InputMode::Insert,
                press(combo),
            ) == Some(a)
            &&& (a != Action::SendMessage && a != Action::NewlineInInput) ==> resolution(
                bindings,
                KeybindPreset::Vim,
                InputMode::Normal,
                press(combo),
            ) == Some(a)
        }),
{
}

/// In the Vim preset, a plain `i` enters insert mode from Normal mode and is
/// typed as text (triggers nothing) once in Insert mode.
pub proof fn law_vim_i_enters_insert_once()
    ensures
        ({
            let i_key = press(KeyCombo { code: KeyCode::Char('i'), modifiers: 0u8 });
            &&& resolution(preset_map(KeybindPreset::Vim), KeybindPreset::Vim, InputMode::Normal, i_key)
                == Some(Action::EnterInsertMode)
            &&& resolution(preset_map(KeybindPreset::Vim), KeybindPreset::Vim, InputMode::Insert, i_key)
                is None
        }),
{
    let c = KeyCombo { code: KeyCode::Char('i'), modifiers: 0u8 };
    assert(preset_map(KeybindPreset::Vim).dom().contains(c) && preset_map(KeybindPreset::Vim)[c]
        == Action::EnterInsertMode);
    law_vim_insert_mode_types_normal_keys(preset_map(KeybindPreset::Vim), c);
}

/// Turns key events into actions for the active preset and mode.
#[derive(Debug, Clone)]
pub struct KeybindResolver {
    pub bindings: KeybindMap,
    pub preset: KeybindPreset,
    pub mode: InputMode,
}

impl KeybindResolver {
    /// The active bindings.
    pub closed spec fn bindings_view(&self) -> Map<KeyCombo, Action> {
        self.bindings.view()
    }

    pub closed spec fn wf(&self) -> bool {
        self.bindings.wf()
    }

    pub fn new(preset: KeybindPreset) -> (r: Self)
        ensures
            r.wf(),
            r.bindings_view() == preset_map(preset),
            r.preset == preset,
            r.mode == InputMode::Normal,
    {
        KeybindResolver { bindings: bindings_for_preset(preset), preset, mode: InputMode::Normal }
    }

    /// The action for a key event: `None` unless it is a press of a bound key
    /// whose action the Vim mode allows.
    pub fn resolve(&self, key: &KeyEvent) -> (r: Option<Action>)
        requires
            self.wf(),
        ensures
            r == resolution(self.bindings_view(), self.preset, self.mode, *key),
    {
        if key.kind != KeyEventKind::Press {
            return None;
        }
        let action = match self.bindings.get(&KeyCombo::from_event(key)) {
            Some(a) => a,
            None => return None,
        };
        if self.preset == KeybindPreset::Vim {
            match self.mode {
                InputMode::Insert => {
                    match action {
                        Action::ScrollDown | Action::ScrollUp | Action::ScrollToTop
                        | Action::ScrollToBottom | Action::HalfPageUp | Action::HalfPageDown
                        | Action::OpenPalette | Action::SearchTranscript | Action::EnterCopyMode
                        | Action::EnterInsertMode => return None,
                        _ => {},
                    }
                },
                InputMode::Normal => {
                    match action {
                        Action::SendMessage | Action::NewlineInInput => return None,
                        _ => {},
                    }
                },
            }
        }
        Some(action)
    }

    pub fn set_mode(&mut self, mode: InputMode)
        ensures
            final(self).mode == mode,
            final(self).preset == old(self).preset,
            final(self).bindings_view() == old(self).bindings_view(),
            final(self).wf() == old(self).wf(),
    {
        self.mode = mode;
    }

    /// Bind `combo` to `action`, replacing any existing binding of `combo`.
    pub fn override_binding(&mut self, combo: KeyCombo, action: Action)
        requires
            old(self).wf(),
        ensures
            final(self).wf(),
            final(self).bindings_view() == old(self).bindings_view().insert(combo, action),
            final(self).preset == old(self).preset,
            final(self).mode == old(self).mode,
    {
        self.bindings.insert(combo, action);
    }

    /// Remove the binding of `combo`, returning the action it had.
    pub fn remove_binding(&mut self, combo: &KeyCombo) -> (r: Option<Action>)
        requires
            old(self).wf(),
        ensures
            final(self).wf(),
            final(self).bindings_view() == old(self).bindings_view().remove(*combo),
            r == (if old(self).bindings_view().dom().contains(*combo) {
                Some(old(self).bindings_view()[*combo])
            } else {
                None
            }),
            final(self).preset == old(self).preset,
            final(self).mode == old(self).mode,
    {
        self.bindings.remove(combo)
    }

    /// All `(combo, action)` bindings, each combo once.
    pub fn bindings(&self) -> (r: Vec<(KeyCombo, Action)>)
        requires
            self.wf(),
        ensures
            distinct_keys(r@),
            forall|k: KeyCombo| lookup(r@, k) == (if self.bindings_view().dom().contains(k) {
                Some(self.bindings_view()[k])
            } else {
                None
            }),
    {
        self.bindings.pairs()
    }
}

} // verus!
