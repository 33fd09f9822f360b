//! Toast notifications: levels with their icons and auto-dismiss delays, and
//! the stack of live toasts with ids, dismissal and expiry.

use vstd::prelude::*;

use std::time::Duration;
use std::time::Instant;

verus! {

/// `std::time::Instant`, carried opaquely: a toast's creation time.
#[verifier::external_type_specification]
#[verifier::external_body]
pub struct ExInstant(std::time::Instant);

/// `Instant`'s `Clone` (it is `Copy`): the clone is the same instant.
pub assume_specification[ <std::time::Instant as Clone>::clone ](t: &std::time::Instant) -> (r: std::time::Instant)
    ensures
        r == *t,
;

/// `Instant::now`. The clock is read; nothing is stated of the result.
#[verifier::external_body]
pub(crate) fn instant_now() -> Instant {
    Instant::now()
}

/// `Instant::elapsed`. Depends on the clock; nothing is stated of the result.
#[verifier::external_body]
fn instant_elapsed(t: &Instant) -> Duration {
    t.elapsed()
}

/// `Duration::as_millis`. The duration is opaque here; nothing is stated of the result.
#[verifier::external_body]
fn duration_as_millis(d: &Duration) -> u128 {
    d.as_millis()
}

/// Severity of a toast.
#[derive(Debug, Clone, Copy, PartialEq, Eq, Structural)]
pub enum ToastLevel {
    Info,
    Success,
    Warning,
    Error,
}

/// Auto-dismiss delay of a level in milliseconds; `None` means it stays until dismissed.
pub open spec fn dismiss_ms(level: ToastLevel) -> Option<u64> {
    match level {
        ToastLevel::Info | ToastLevel::Success => Some(4000),
        ToastLevel::Warning => Some(8000),
        ToastLevel::Error => None,
    }
}

impl ToastLevel {
    /// Icon shown before the title.
    pub fn icon(self) -> (r: &'static str)
        ensures
            r@ == match self {
                ToastLevel::Info => "\u{2139}"@,
                ToastLevel::Success => "\u{2713}"@,
                ToastLevel::Warning => "\u{26a0}"@,
                ToastLevel::Error => "\u{2717}"@,
            },
    {
        match self {
            ToastLevel::Info => "\u{2139}",
            ToastLevel::Success => "\u{2713}",
            ToastLevel::Warning => "\u{26a0}",
            ToastLevel::Error => "\u{2717}",
        }
    }

    /// Auto-dismiss duration in milliseconds; `None` = persistent (manual dismiss).
    pub fn auto_dismiss_ms(self) -> (r: Option<u64>)
        ensures
            r == dismiss_ms(self),
    {
        match self {
            ToastLevel::Info | ToastLevel::Success => Some(4000),
            ToastLevel::Warning => Some(8000),
            ToastLevel::Error => None,
        }
    }
}

/// Whether a toast with this auto-dismiss delay has expired after `elapsed_ms`.
pub open spec fn expired(dismiss_after_ms: Option<u64>, elapsed_ms: u64) -> bool {
    match dismiss_after_ms {
        Some(ms) => elapsed_ms >= ms,
        None => false,
    }
}

/// Exec form of `expired`.
pub fn expired_after(dismiss_after_ms: Option<u64>, elapsed_ms: u64) -> (r: bool)
    ensures
        r == expired(dismiss_after_ms, elapsed_ms),
{
    match dismiss_after_ms {
        Some(ms) => elapsed_ms >= ms,
        None => false,
    }
}

/// Per toast in `s`, whether it is still live after the elapsed times `elapsed`.
pub open spec fn live_flags(s: Seq<Toast>, elapsed: Seq<u64>) -> Seq<bool> {
    Seq::new(s.len(), |i: int| !expired(s[i].dismiss_after_ms, elapsed[i]))
}

/// Milliseconds since `t` by the clock, saturated to `u64`.
fn millis_since(t: &Instant) -> u64 {
    let ms = duration_as_millis(&instant_elapsed(t));
    if ms > u64::MAX as u128 {
        u64::MAX
    } else {
        ms as u64
    }
}

/// One notification.
#[derive(Debug, Clone)]
pub struct Toast {
    pub id: u64,
    pub level: ToastLevel,
    pub title: String,
    pub body: Option<String>,
    pub created_at: Instant,
    pub dismiss_after_ms: Option<u64>,
}

impl Toast {
    /// A toast created now, dismissed after its level's delay.
    pub fn new(id: u64, level: ToastLevel, title: &str) -> (t: Self)
        ensures
            t.id == id,
            t.level == level,
            t.title@ == title@,
            t.body is None,
            t.dismiss_after_ms == dismiss_ms(level),
    {
        Toast {
            id,
            level,
            title: title.to_owned(),
            body: None,
            created_at: instant_now(),
            dismiss_after_ms: level.auto_dismiss_ms(),
        }
    }

    /// The same toast with a body.
    pub fn with_body(self, body: &str) -> (t: Self)
        ensures
            t.id == self.id,
            t.level == self.level,
            t.title == self.title,
            t.body matches Some(b) && b@ == body@,
            t.created_at == self.created_at,
            t.dismiss_after_ms == self.dismiss_after_ms,
    {
        let mut t = self;
        t.body = Some(body.to_owned());
        t
    }

    /// True once the toast has outlived its auto-dismiss delay (the clock is
    /// read; the elapsed milliseconds are saturated to `u64`). A toast without
    /// a delay never expires; one with a zero delay always has.
    pub fn is_expired(&self) -> (r: bool)
        ensures
            self.dismiss_after_ms is None ==> !r,
            self.dismiss_after_ms == Some(0u64) ==> r,
            r ==> self.dismiss_after_ms is Some,
    {
        match self.dismiss_after_ms {
            Some(ms) => {
                expired_after(Some(ms), millis_since(&self.created_at))
            },
            None => false,
        }
    }
}

/// Maximum number of toasts visible at once.
pub const MAX_VISIBLE_TOASTS: usize = 3;

/// `s` with the elements whose flag in `keep` is false left out.
pub open spec fn kept_by<T>(s: Seq<T>, keep: Seq<bool>) -> Seq<T>
    decreases s.len(),
{
    if s.len() == 0 {
        s
    } else {
        let rest = kept_by(s.drop_last(), keep.take(s.len() - 1));
        if keep[s.len() - 1] {
            rest.push(s.last())
        } else {
            rest
        }
    }
}

proof fn lemma_kept_by_step<T>(s: Seq<T>, keep: Seq<bool>, j: int)
    requires
        0 <= j < s.len(),
        j < keep.len(),
    ensures
        kept_by(s.take(j + 1), keep.take(j + 1)) == if keep[j] {
            kept_by(s.take(j), keep.take(j)).push(s[j])
        } else {
            kept_by(s.take(j), keep.take(j))
        },
{
    assert(s.take(j + 1).drop_last() =~= s.take(j));
    assert(keep.take(j + 1).take(j) =~= keep.take(j));
    assert(s.take(j + 1).last() == s[j]);
}

proof fn lemma_filter_step<T>(s: Seq<T>, j: int, pred: spec_fn(T) -> bool)
    requires
        0 <= j < s.len(),
    ensures
        s.take(j + 1).filter(pred) == if pred(s[j]) {
            s.take(j).filter(pred).push(s[j])
        } else {
            s.take(j).filter(pred)
        },
{
    reveal(Seq::filter);
    assert(s.take(j + 1).drop_last() =~= s.take(j));
    assert(s.take(j + 1).last() == s[j]);
}

/// Every toast in `s` has an id below `next`.
pub open spec fn ids_below(s: Seq<Toast>, next: u64) -> bool {
    forall|i: int| 0 <= i < s.len() ==> #[trigger] s[i].id < next
}

proof fn lemma_ids_below_filter(s: Seq<Toast>, pred: spec_fn(Toast) -> bool, next: u64)
    requires
        ids_below(s, next),
    ensures
        ids_below(s.filter(pred), next),
    decreases s.len(),
{
    reveal(Seq::filter);
    if s.len() > 0 {
        lemma_ids_below_filter(s.drop_last(), pred, next);
        assert(s.drop_last().len() < s.len());
        assert forall|i: int| 0 <= i < s.filter(pred).len() implies #[trigger] s.filter(pred)[i].id
            < next by {
            if i < s.drop_last().filter(pred).len() {
            } else {
                assert(s.filter(pred)[i] == s.last());
            }
        }
    }
}

proof fn lemma_ids_below_kept(s: Seq<Toast>, keep: Seq<bool>, next: u64)
    requires
        ids_below(s, next),
    ensures
        ids_below(kept_by(s, keep), next),
    decreases s.len(),
{
    if s.len() > 0 {
        lemma_ids_below_kept(s.drop_last(), keep.take(s.len() - 1), next);
        assert(s.drop_last().len() < s.len());
        let rest = kept_by(s.drop_last(), keep.take(s.len() - 1));
        assert forall|i: int| 0 <= i < kept_by(s, keep).len() implies #[trigger] kept_by(s, keep)[i].id
            < next by {
            if i < rest.len() {
                assert(kept_by(s, keep)[i] == rest[i]);
            } else {
                assert(kept_by(s, keep)[i] == s.last());
            }
        }
    }
}

/// Dismissing the toast just pushed gives back the toasts from before the
/// push, when its id is new (as `push` guarantees of a well-formed state).
pub proof fn law_dismiss_after_push(before: Seq<Toast>, t: Toast)
    requires
        forall|i: int| 0 <= i < before.len() ==> #[trigger] before[i].id != t.id,
    ensures
        before.push(t).filter(|x: Toast| x.id != t.id) == before,
    decreases before.len(),
{
    let pred = |x: Toast| x.id != t.id;
    before.lemma_filter_push(t, pred);
    lemma_filter_all(before, pred);
}

proof fn lemma_filter_all(s: Seq<Toast>, pred: spec_fn(Toast) -> bool)
    requires
        forall|i: int| 0 <= i < s.len() ==> pred(#[trigger] s[i]),
    ensures
        s.filter(pred) == s,
    decreases s.len(),
{
    reveal(Seq::filter);
    if s.len() > 0 {
        assert forall|i: int| 0 <= i < s.drop_last().len() implies pred(#[trigger] s.drop_last()[i]) by {
            assert(s.drop_last()[i] == s[i]);
        }
        lemma_filter_all(s.drop_last(), pred);
        assert(pred(s[s.len() - 1]));
        assert(s.drop_last().push(s.last()) =~= s);
    }
}

/// The live toasts, oldest first, and the next id to hand out.
#[derive(Debug, Clone)]
pub struct ToastState {
    toasts: Vec<Toast>,
    next_id: u64,
}

impl View for ToastState {
    type V = Seq<Toast>;

    closed spec fn view(&self) -> Seq<Toast> {
        self.toasts@
    }
}

impl ToastState {
    /// The id the next pushed toast gets.
    pub closed spec fn next(&self) -> u64 {
        self.next_id
    }

    /// Every live toast's id is below the next id, so ids are never reused.
    pub closed spec fn wf(&self) -> bool {
        ids_below(self.toasts@, self.next_id)
    }

    /// Every live toast's id is below the next id: ids handed out by `push`
    /// strictly increase and are never reused.
    pub proof fn lemma_ids_below_next(&self)
        requires
            self.wf(),
        ensures
            forall|i: int| 0 <= i < self@.len() ==> #[trigger] self@[i].id < self.next(),
    {
    }

    pub fn new() -> (s: Self)
        ensures
            s.wf(),
            s@ == Seq::<Toast>::empty(),
            s.next() == 0,
    {
        ToastState { toasts: Vec::new(), next_id: 0 }
    }

    /// Add a toast and return its id.
    pub fn push(&mut self, level: ToastLevel, title: &str) -> (id: u64)
        requires
            old(self).wf(),
            old(self).next() < u64::MAX,
        ensures
            final(self).wf(),
            forall|i: int| 0 <= i < old(self)@.len() ==> #[trigger] old(self)@[i].id < id,
            id == old(self).next(),
            final(self).next() == old(self).next() + 1,
            final(self)@.len() == old(self)@.len() + 1,
            final(self)@.take(old(self)@.len() as int) == old(self)@,
            ({
                let t = final(self)@.last();
                &&& t.id == id
                &&& t.level == level
                &&& t.title@ == title@
                &&& t.body is None
                &&& t.dismiss_after_ms == dismiss_ms(level)
            }),
    {
        let id = self.next_id;
        self.next_id = self.next_id + 1;
        self.toasts.push(Toast::new(id, level, title));
        proof {
            assert(self@.take(old(self)@.len() as int) =~= old(self)@);
        }
        id
    }

    /// Add a toast with body text and return its id.
    pub fn push_with_body(&mut self, level: ToastLevel, title: &str, body: &str) -> (id: u64)
        requires
            old(self).wf(),
            old(self).next() < u64::MAX,
        ensures
            final(self).wf(),
            forall|i: int| 0 <= i < old(self)@.len() ==> #[trigger] old(self)@[i].id < id,
            id == old(self).next(),
            final(self).next() == old(self).next() + 1,
            final(self)@.len() == old(self)@.len() + 1,
            final(self)@.take(old(self)@.len() as int) == old(self)@,
            ({
                let t = final(self)@.last();
                &&& t.id == id
                &&& t.level == level
                &&& t.title@ == title@
                &&& t.body matches Some(b) && b@ == body@
                &&& t.dismiss_after_ms == dismiss_ms(level)
            }),
    {
        let id = self.next_id;
        self.next_id = self.next_id + 1;
        self.toasts.push(Toast::new(id, level, title).with_body(body));
        proof {
            assert(self@.take(old(self)@.len() as int) =~= old(self)@);
        }
        id
    }

    /// Remove every toast with this id.
    pub fn dismiss(&mut self, id: u64)
        requires
            old(self).wf(),
        ensures
            final(self).wf(),
            final(self)@ == old(self)@.filter(|t: Toast| t.id != id),
            final(self).next() == old(self).next(),
    {
        let ghost pred = |t: Toast| t.id != id;
        let ghost s = self@;
        let ghost mut j: int = 0;
        let mut i: usize = 0;
        proof {
            reveal(Seq::filter);
            assert(s.take(0).filter(pred) =~= Seq::<Toast>::empty());
            assert(s.skip(0) =~= s);
            assert(self@ =~= s.take(0).filter(pred) + s.skip(0));
        }
        while i < self.toasts.len()
            invariant
                0 <= j <= s.len(),
                pred == (|t: Toast| t.id != id),
                self@ == s.take(j).filter(pred) + s.skip(j),
                i == s.take(j).filter(pred).len(),
                self.next() == old(self).next(),
                ids_below(s, self.next()),
            decreases self@.len() - i,
        {
            assert(self@[i as int] == s[j]);
            proof {
                lemma_filter_step(s, j, pred);
            }
            if self.toasts[i].id == id {
                self.toasts.remove(i);
                proof {
                    assert(self@ =~= s.take(j + 1).filter(pred) + s.skip(j + 1));
                }
            } else {
                proof {
                    assert(self@ =~= s.take(j + 1).filter(pred) + s.skip(j + 1));
                }
                i = i + 1;
            }
            proof {
                j = j + 1;
            }
        }
        proof {
            assert(j == s.len());
            assert(s.take(j) =~= s);
            assert(self@ =~= s.filter(pred));
            lemma_ids_below_filter(s, pred, self.next());
        }
    }

    /// Dismiss the most recent toast (the topmost visible one), if any.
    pub fn dismiss_top(&mut self)
        requires
            old(self).wf(),
        ensures
            final(self).wf(),
            old(self)@.len() == 0 ==> final(self)@ == old(self)@,
            old(self)@.len() > 0 ==> final(self)@ == old(self)@.filter(
                |t: Toast| t.id != old(self)@.last().id,
            ),
            final(self).next() == old(self).next(),
    {
        let n = self.toasts.len();
        if n > 0 {
            let id = self.toasts[n - 1].id;
            self.dismiss(id);
        }
    }

    /// Remove the toasts that have expired after the given elapsed times
    /// (`elapsed_ms[i]` milliseconds for the `i`-th toast), keeping the rest in
    /// order; true if any went.
    pub fn retain_unexpired(&mut self, elapsed_ms: &Vec<u64>) -> (removed: bool)
        requires
            old(self).wf(),
            elapsed_ms@.len() == old(self)@.len(),
        ensures
            final(self).wf(),
            final(self)@ == kept_by(old(self)@, live_flags(old(self)@, elapsed_ms@)),
            removed == (final(self)@.len() != old(self)@.len()),
            final(self).next() == old(self).next(),
    {
        let before = self.toasts.len();
        let ghost s = self@;
        let ghost flags = live_flags(s, elapsed_ms@);
        let ghost mut keep: Seq<bool> = Seq::empty();
        let mut i: usize = 0;
        let mut j: usize = 0;
        proof {
            assert(s.take(0) =~= Seq::<Toast>::empty());
            assert(s.skip(0) =~= s);
            assert(self@ =~= kept_by(s.take(0), keep) + s.skip(0));
            assert(keep =~= flags.take(0));
        }
        while i < self.toasts.len()
            invariant
                j == keep.len(),
                0 <= keep.len() <= s.len(),
                flags == live_flags(s, elapsed_ms@),
                elapsed_ms@.len() == s.len(),
                keep == flags.take(keep.len() as int),
                self@ == kept_by(s.take(keep.len() as int), keep) + s.skip(keep.len() as int),
                i == kept_by(s.take(keep.len() as int), keep).len(),
                self.next() == old(self).next(),
                ids_below(s, self.next()),
                before == s.len(),
            decreases self@.len() - i,
        {
            assert(self@[i as int] == s[j as int]);
            let gone = expired_after(self.toasts[i].dismiss_after_ms, elapsed_ms[j]);
            let ghost keep2 = keep.push(!gone);
            proof {
                lemma_kept_by_step(s, keep2, j as int);
                assert(keep2.take(j as int) =~= keep);
                assert(keep2.take(j + 1) =~= keep2);
                assert(keep2 =~= flags.take(j + 1));
            }
            if gone {
                self.toasts.remove(i);
                proof {
                    assert(self@ =~= kept_by(s.take(j + 1), keep2) + s.skip(j + 1));
                }
            } else {
                proof {
                    assert(self@ =~= kept_by(s.take(j + 1), keep2) + s.skip(j + 1));
                }
                i = i + 1;
            }
            j = j + 1;
            proof {
                keep = keep2;
            }
        }
        proof {
            assert(keep.len() == s.len());
            assert(s.take(s.len() as int) =~= s);
            assert(flags.take(s.len() as int) =~= flags);
            assert(self@ =~= kept_by(s, flags));
            lemma_ids_below_kept(s, flags, self.next());
        }
        self.toasts.len() != before
    }

    /// Remove expired toasts; true if any went. The clock is read once per
    /// toast and the toasts are then kept or removed as `retain_unexpired`
    /// decides for those readings, so toasts without a delay always stay and
    /// zero-delay ones always go.
    pub fn tick(&mut self) -> (removed: bool)
        requires
            old(self).wf(),
        ensures
            final(self).wf(),
            exists|elapsed: Seq<u64>|
                {
                    &&& elapsed.len() == old(self)@.len()
                    &&& final(self)@ == kept_by(old(self)@, live_flags(old(self)@, elapsed))
                },
            removed == (final(self)@.len() != old(self)@.len()),
            final(self).next() == old(self).next(),
    {
        let n = self.toasts.len();
        let mut elapsed: Vec<u64> = Vec::new();
        let mut i: usize = 0;
        while i < n
            invariant
                n == self@.len(),
                i <= n,
                elapsed@.len() == i,
            decreases n - i,
        {
            elapsed.push(millis_since(&self.toasts[i].created_at));
            i = i + 1;
        }
        self.retain_unexpired(&elapsed)
    }

    /// The visible toasts: the last `MAX_VISIBLE_TOASTS`, most recent last.
    pub fn visible(&self) -> (r: Vec<&Toast>)
        ensures
            ({
                let n = self@.len() as int;
                let start = if n > 3 { n - 3 } else { 0 };
                &&& r@.len() == n - start
                &&& forall|i: int| 0 <= i < r@.len() ==> *r@[i] == self@[start + i]
            }),
    {
        let n = self.toasts.len();
        let start = n.saturating_sub(MAX_VISIBLE_TOASTS);
        let mut r: Vec<&Toast> = Vec::new();
        let mut i = start;
        while i < n
            invariant
                n == self@.len(),
                start == if n > 3 { n - 3 } else { 0 },
                start <= i <= n,
                r@.len() == i - start,
                forall|k: int| 0 <= k < r@.len() ==> *r@[k] == self@[start + k],
            decreases n - i,
        {
            r.push(&self.toasts[i]);
            i = i + 1;
        }
        r
    }

    pub fn is_empty(&self) -> (b: bool)
        ensures
            b == (self@.len() == 0),
    {
        self.toasts.len() == 0
    }

    pub fn len(&self) -> (n: usize)
        ensures
            n == self@.len(),
    {
        self.toasts.len()
    }

    pub fn clear(&mut self)
        ensures
            final(self).wf(),
            final(self)@ == Seq::<Toast>::empty(),
            final(self).next() == old(self).next(),
    {
        self.toasts.clear();
    }
}

impl Default for ToastState {
    fn default() -> (s: Self)
        ensures
            s.wf(),
            s@ == Seq::<Toast>::empty(),
            s.next() == 0,
    {
        Self::new()
    }
}

} // verus!
