//! Restart accounting within a sliding time window.
use std::collections::VecDeque;

use vstd::prelude::*;

use crate::time::{Duration, Instant};

verus! {

/// Holds of the events at or after `before`.
pub open spec fn at_or_after(before: nat) -> spec_fn(nat) -> bool {
    |t: nat| before <= t
}

/// Holds of the events no older than `window` before `now`.
pub open spec fn within_window(now: nat, window: nat) -> spec_fn(nat) -> bool {
    |t: nat| now <= t + window
}

/// The queue without the events before `before`, the others in their order.
pub open spec fn evicted(s: Seq<nat>, before: nat) -> Seq<nat> {
    s.filter(at_or_after(before))
}

/// The queue after an event at `now` is recorded and the events older than
/// `window` before `now` are evicted: exactly the events, the new one
/// included, that lie no more than the window before it, in their order.
pub open spec fn after_mark(s: Seq<nat>, now: nat, window: nat) -> Seq<nat> {
    s.push(now).filter(within_window(now, window))
}

/// Events in time order.
pub open spec fn in_time_order(s: Seq<nat>) -> bool {
    forall|i: int, j: int| 0 <= i <= j < s.len() ==> s[i] <= s[j]
}

/// How far before its origin the monotonic clock can name a point, in
/// nanoseconds: it counts whole seconds in a signed 64-bit `time_t`.
pub open spec fn clock_reach() -> nat {
    9_223_372_036_854_775_808nat * 1_000_000_000nat
}

/// Whether the point `window` before `now` can be named on the clock.
pub open spec fn cutoff_in_reach(now: nat, window: nat) -> bool {
    window <= now + clock_reach()
}

proof fn lemma_filter_keeps_all(s: Seq<nat>, p: spec_fn(nat) -> bool)
    requires
        forall|i: int| 0 <= i < s.len() ==> p(s[i]),
    ensures
        s.filter(p) == s,
    decreases s.len(),
{
    reveal_with_fuel(Seq::filter, 1);
    if s.len() > 0 {
        lemma_filter_keeps_all(s.drop_last(), p);
        assert(s.drop_last().push(s.last()) =~= s);
    }
}

/// Eviction keeps the events in time order where they were in time order.
pub proof fn lemma_filter_keeps_time_order(s: Seq<nat>, p: spec_fn(nat) -> bool)
    requires
        in_time_order(s),
    ensures
        in_time_order(s.filter(p)),
    decreases s.len(),
{
    reveal_with_fuel(Seq::filter, 1);
    if s.len() > 0 {
        let rest = s.drop_last();
        assert(in_time_order(rest));
        lemma_filter_keeps_time_order(rest, p);
        let f = rest.filter(p);
        if p(s.last()) {
            assert forall|i: int, j: int| 0 <= i <= j < f.push(s.last()).len() implies
                #[trigger] f.push(s.last())[i] <= #[trigger] f.push(s.last())[j] by {
                if j == f.len() && i < j {
                    assert(f.contains(f[i]));
                    rest.lemma_filter_contains_rev(p, f[i]);
                    let k = choose|k: int| 0 <= k < rest.len() && rest[k] == f[i];
                    assert(s[k] <= s[s.len() - 1]);
                }
            }
        }
    }
}

/// Marking events in time order keeps the queue in time order.
pub proof fn lemma_mark_keeps_time_order(s: Seq<nat>, now: nat, window: nat)
    requires
        in_time_order(s),
        s.len() > 0 ==> s.last() <= now,
    ensures
        in_time_order(after_mark(s, now, window)),
{
    let pushed = s.push(now);
    assert(in_time_order(pushed)) by {
        assert forall|i: int, j: int| 0 <= i <= j < pushed.len() implies pushed[i] <= pushed[j] by {
            if j == s.len() && i < j {
                assert(s[i] <= s[s.len() - 1]);
            }
        }
    }
    lemma_filter_keeps_time_order(pushed, within_window(now, window));
}

/// The queue after events are marked at `times`, one after another,
/// starting from the queue `s`.
pub open spec fn marks_run(s: Seq<nat>, times: Seq<nat>, window: nat) -> Seq<nat>
    decreases times.len(),
{
    if times.len() == 0 {
        s
    } else {
        after_mark(marks_run(s, times.drop_last(), window), times.last(), window)
    }
}

/// Filtering by a test and then by a stricter one filters by the stricter one.
proof fn lemma_filter_twice(s: Seq<nat>, p: spec_fn(nat) -> bool, q: spec_fn(nat) -> bool)
    requires
        forall|t: nat| #[trigger] q(t) ==> p(t),
    ensures
        s.filter(p).filter(q) == s.filter(q),
    decreases s.len(),
{
    if s.len() > 0 {
        let rest = s.drop_last();
        lemma_filter_twice(rest, p, q);
        assert(rest.push(s.last()) =~= s);
        rest.lemma_filter_push(s.last(), p);
        rest.lemma_filter_push(s.last(), q);
        rest.filter(p).lemma_filter_push(s.last(), q);
    }
}

/// A run of marks at times that never go back (the clock is monotonic)
/// leaves exactly the events, earlier ones and marked ones, that lie no more
/// than the window before the last mark, in their order: every event older
/// than that is forgotten, whatever the marks between. Each mark answers
/// whether fewer events than the limit then remain (`RetryGuard::mark_at`),
/// so a limit reached once is no longer reached once the window has moved
/// past the events that filled it.
pub proof fn lemma_marks_forget_what_left_the_window(s: Seq<nat>, times: Seq<nat>, window: nat)
    requires
        times.len() > 0,
        in_time_order(times),
    ensures
        marks_run(s, times, window) == (s + times).filter(within_window(times.last(), window)),
    decreases times.len(),
{
    let t = times.last();
    let rest = times.drop_last();
    assert((s + rest).push(t) =~= s + times);
    let q = within_window(t, window);
    assert(q(t));
    assert(marks_run(s, times, window) == marks_run(s, rest, window).push(t).filter(q));
    if rest.len() == 0 {
        assert(s + rest =~= s);
    } else {
        assert(in_time_order(rest));
        lemma_marks_forget_what_left_the_window(s, rest, window);
        let p = within_window(rest.last(), window);
        assert(rest.last() <= t);
        (s + rest).lemma_filter_push(t, q);
        (s + rest).filter(p).lemma_filter_push(t, q);
        assert forall|x: nat| #[trigger] q(x) implies p(x) by {}
        lemma_filter_twice(s + rest, p, q);
        assert(marks_run(s, rest, window) == (s + rest).filter(p));
    }
}

/// What the clock read, as a time since its origin.
pub open spec fn reading_view(reading: Option<Instant>) -> Option<nat> {
    match reading {
        Some(t) => Some(t.view()),
        None => None,
    }
}

/// The time an event is marked at: the clock's reading where there is one,
/// else the latest recorded event, else the clock's origin.
pub open spec fn marked_time(events: Seq<nat>, reading: Option<nat>) -> nat {
    match reading {
        Some(t) => t,
        None => if events.len() > 0 { events.last() } else { 0 },
    }
}

/// A mark records its own time: the marked event is the newest in the queue.
/// Two marks further apart than the window leave the later one alone, the
/// earlier events included, where the events came in time order.
pub proof fn lemma_mark_records_its_time(s: Seq<nat>, t1: nat, t2: nat, window: nat)
    ensures
        after_mark(s, t1, window).len() > 0,
        after_mark(s, t1, window).last() == t1,
        in_time_order(s) && (s.len() > 0 ==> s.last() <= t1) && t1 + window < t2
            ==> after_mark(after_mark(s, t1, window), t2, window) == seq![t2],
{
    let p1 = within_window(t1, window);
    let p2 = within_window(t2, window);
    assert(p1(t1));
    s.lemma_filter_push(t1, p1);
    let m = after_mark(s, t1, window);
    m.lemma_filter_push(t2, p2);
    if in_time_order(s) && (s.len() > 0 ==> s.last() <= t1) && t1 + window < t2 {
        assert forall|i: int| 0 <= i < m.len() implies !p2(#[trigger] m[i]) by {
            assert(m.contains(m[i]));
            s.push(t1).lemma_filter_contains_rev(p1, m[i]);
            let k = choose|k: int| 0 <= k < s.push(t1).len() && s.push(t1)[k] == m[i];
            if k < s.len() {
                assert(s[k] <= s[s.len() - 1]);
            }
        }
        m.lemma_all_neg_filter_empty(p2);
        assert(m.filter(p2).push(t2) =~= seq![t2]);
    }
}

/// Tracks recent restarts and tells when too many fell within the tolerance window.
#[derive(Debug)]
pub struct RetryGuard {
    retries: VecDeque<Instant>,
    tolerance_interval: Duration,
    tolerance_count: usize,
}

impl RetryGuard {
    /// The recorded events, oldest first, as times since the clock's origin.
    pub closed spec fn events(self) -> Seq<nat> {
        self.retries@.map_values(|t: Instant| t.view())
    }

    /// The tolerance window in nanoseconds.
    pub closed spec fn window(self) -> nat {
        self.tolerance_interval.view()
    }

    /// How many events the window tolerates, exclusive.
    pub closed spec fn limit(self) -> nat {
        self.tolerance_count as nat
    }

    pub fn new(
        retries: VecDeque<Instant>,
        tolerance_interval: Duration,
        tolerance_count: usize,
    ) -> (g: Self)
        ensures
            g.events() == retries@.map_values(|t: Instant| t.view()),
            g.window() == tolerance_interval.view(),
            g.limit() == tolerance_count,
    {
        RetryGuard { retries, tolerance_interval, tolerance_count }
    }

    /// The number of recorded events.
    pub fn len(&self) -> (n: usize)
        ensures
            n == self.events().len(),
    {
        self.retries.len()
    }

    /// Evict all events before a given time.
    fn evict(&mut self, before: &Instant)
        ensures
            final(self).events() == evicted(old(self).events(), before.view()),
            final(self).window() == old(self).window(),
            final(self).limit() == old(self).limit(),
    {
        let ghost events = self.events();
        let n = self.retries.len();
        let mut kept: VecDeque<Instant> = VecDeque::new();
        let mut i: usize = 0;
        while i < n
            invariant
                i <= n,
                n == self.retries@.len(),
                events == self.events(),
                kept@.map_values(|t: Instant| t.view()) == events.take(i as int).filter(at_or_after(before.view())),
            decreases n - i,
        {
            proof { reveal_with_fuel(Seq::filter, 1); }
            assert(events.take(i + 1).drop_last() =~= events.take(i as int));
            assert(events[i as int] == self.retries@[i as int].view());
            let t = self.retries[i];
            let ghost old_kept = kept@;
            if !t.lt(before) {
                kept.push_back(t);
                assert(kept@.map_values(|t: Instant| t.view()) =~= old_kept.map_values(|t: Instant| t.view()).push(t.view()));
            }
            i = i + 1;
        }
        assert(events.take(n as int) =~= events);
        self.retries = kept;
    }

    /// Whether the window reaches back no further than the clock can name
    /// a point, from any reading of the clock.
    pub open spec fn window_in_reach(self) -> bool {
        self.window() <= clock_reach()
    }

    /// Whether the window reaches back no further than the clock can name
    /// a point, from any reading of the clock.
    pub fn fits_clock(&self) -> (b: bool)
        ensures
            b == self.window_in_reach(),
    {
        self.tolerance_interval.as_nanos() <= 9_223_372_036_854_775_808_000_000_000u128
    }

    /// Mark the current event on the monotonic clock.
    /// Returns `false` if the upper bound is reached.
    ///
    /// Where the clock cannot be read, the event is marked at the latest
    /// recorded event, or at the clock's origin where none is recorded.
    pub fn mark(&mut self) -> (within_limit: bool)
        requires
            old(self).window_in_reach(),
        ensures
            exists|now: nat| final(self).events() == #[trigger] after_mark(old(self).events(), now, old(self).window()),
            exists|reading: Option<Instant>| {
                &&& (reading matches Some(t) ==> exists|secs: i64, nanos: i64| #[trigger] Instant::reading_in_range(secs, nanos)
                    && t.view() == secs * 1_000_000_000nat + nanos)
                &&& #[trigger] final(self).events() == after_mark(old(self).events(),
                    marked_time(old(self).events(), reading_view(reading)), old(self).window())
            },
            final(self).window() == old(self).window(),
            final(self).limit() == old(self).limit(),
            within_limit == (final(self).events().len() < final(self).limit()),
    {
        let reading = Instant::now();
        self.mark_reading(reading)
    }

    /// Mark an event at what the clock read: at the reading where there is
    /// one, else at the latest recorded event, else at the clock's origin.
    /// Returns `false` if the upper bound is reached.
    pub fn mark_reading(&mut self, reading: Option<Instant>) -> (within_limit: bool)
        requires
            old(self).window_in_reach(),
        ensures
            final(self).events() == after_mark(old(self).events(),
                marked_time(old(self).events(), reading_view(reading)), old(self).window()),
            final(self).window() == old(self).window(),
            final(self).limit() == old(self).limit(),
            within_limit == (final(self).events().len() < final(self).limit()),
    {
        let now = match reading {
            Some(t) => t,
            None => {
                let n = self.retries.len();
                if n > 0 {
                    self.retries[n - 1]
                } else {
                    Instant::from_elapsed(Duration::from_secs(0))
                }
            },
        };
        proof {
            if reading is None && self.retries@.len() > 0 {
                assert(self.events().last() == self.retries@.last().view());
            }
        }
        self.mark_at(now)
    }

    /// Mark an event at `now`, evict the events that fell out of the window,
    /// and tell whether fewer events than the limit remain.
    pub fn mark_at(&mut self, now: Instant) -> (within_limit: bool)
        requires
            cutoff_in_reach(now.view(), old(self).window()),
        ensures
            final(self).events() == after_mark(old(self).events(), now.view(), old(self).window()),
            final(self).window() == old(self).window(),
            final(self).limit() == old(self).limit(),
            within_limit == (final(self).events().len() < final(self).limit()),
    {
        self.retries.push_back(now);
        let ghost pushed = old(self).events().push(now.view());
        assert(self.events() =~= pushed);
        match now.checked_sub(&self.tolerance_interval) {
            Some(before) => {
                self.evict(&before);
                assert(at_or_after(before.view()) =~= within_window(now.view(), self.window()));
            },
            None => {
                assert forall|i: int| 0 <= i < pushed.len() implies within_window(now.view(), self.window())(pushed[i]) by {}
                proof { lemma_filter_keeps_all(pushed, within_window(now.view(), self.window())); }
            },
        }
        self.retries.len() < self.tolerance_count
    }
}

} // verus!
