//! Spans of time and points on the monotonic clock.
use vstd::prelude::*;

verus! {

/// Nanoseconds in one second.
pub const NANOS_PER_SEC: u32 = 1_000_000_000;

/// A span of time with nanosecond precision, as wide as `u64` seconds.
#[derive(Clone, Copy, Debug, PartialEq, Eq, Structural)]
pub struct Duration {
    secs: u64,
    nanos: u32,
}

impl Duration {
    #[verifier::type_invariant]
    spec fn nanos_below_one_second(self) -> bool {
        self.nanos < NANOS_PER_SEC
    }

    /// The span in nanoseconds.
    pub closed spec fn view(self) -> nat {
        (self.secs * (NANOS_PER_SEC as nat) + self.nanos) as nat
    }

    /// The widest span: `u64::MAX` seconds and just under one more second.
    pub open spec fn max_nanos() -> nat {
        ((u64::MAX as nat) * (NANOS_PER_SEC as nat) + (NANOS_PER_SEC as nat) - 1) as nat
    }

    /// A span of whole seconds.
    pub fn from_secs(secs: u64) -> (d: Duration)
        ensures
            d.view() == secs * (NANOS_PER_SEC as nat),
    {
        Duration { secs, nanos: 0 }
    }

    /// Seconds and nanoseconds, where the nanoseconds past one second carry
    /// into the seconds. `None` where the seconds would pass `u64::MAX`.
    pub fn checked_new(secs: u64, nanos: u32) -> (d: Option<Duration>)
        ensures
            (secs * (NANOS_PER_SEC as nat) + nanos <= Self::max_nanos()) <==> d is Some,
            d matches Some(d) ==> d.view() == secs * (NANOS_PER_SEC as nat) + nanos,
    {
        let carry = (nanos / NANOS_PER_SEC) as u64;
        let rest = nanos % NANOS_PER_SEC;
        match secs.checked_add(carry) {
            Some(s) => Some(Duration { secs: s, nanos: rest }),
            None => None,
        }
    }

    /// The span built from a count of nanoseconds; `None` where it is wider
    /// than the widest span.
    pub fn from_nanos_checked(total: u128) -> (d: Option<Duration>)
        ensures
            (total <= Self::max_nanos()) <==> d is Some,
            d matches Some(d) ==> d.view() == total,
    {
        let secs = total / (NANOS_PER_SEC as u128);
        let nanos = (total % (NANOS_PER_SEC as u128)) as u32;
        proof {
            let q = total as int / 1_000_000_000int;
            let r = total as int % 1_000_000_000int;
            vstd::arithmetic::div_mod::lemma_fundamental_div_mod(total as int, 1_000_000_000int);
            assert(total as int == q * 1_000_000_000 + r && 0 <= r < 1_000_000_000);
            assert(q <= u64::MAX <==> total as int <= u64::MAX * 1_000_000_000int + 999_999_999) by (nonlinear_arith)
                requires total as int == q * 1_000_000_000 + r, 0 <= r < 1_000_000_000;
        }
        if secs <= u64::MAX as u128 {
            Some(Duration { secs: secs as u64, nanos })
        } else {
            None
        }
    }

    /// The whole seconds of the span.
    pub fn as_secs(&self) -> (s: u64)
        ensures
            s == self.view() / (NANOS_PER_SEC as nat),
    {
        proof { use_type_invariant(self); }
        self.secs
    }

    /// The nanoseconds past the whole seconds.
    pub fn subsec_nanos(&self) -> (n: u32)
        ensures
            n == self.view() % (NANOS_PER_SEC as nat),
    {
        proof { use_type_invariant(self); }
        self.nanos
    }

    /// The span in nanoseconds.
    pub fn as_nanos(&self) -> (n: u128)
        ensures
            n == self.view(),
            n <= Self::max_nanos(),
    {
        proof {
            use_type_invariant(self);
            assert(self.secs * 1_000_000_000int <= u64::MAX * 1_000_000_000int) by (nonlinear_arith)
                requires self.secs <= u64::MAX;
        }
        (self.secs as u128) * (NANOS_PER_SEC as u128) + (self.nanos as u128)
    }

    /// The span taken `k` times; `None` where that is wider than the widest span.
    pub fn checked_mul(&self, k: u32) -> (d: Option<Duration>)
        ensures
            (self.view() * k <= Self::max_nanos()) <==> d is Some,
            d matches Some(d) ==> d.view() == self.view() * k,
    {
        let n = self.as_nanos();
        assert(n * k <= Self::max_nanos() * u32::MAX) by (nonlinear_arith)
            requires n <= Self::max_nanos();
        Duration::from_nanos_checked(n * (k as u128))
    }

    /// Whether this span is no longer than `other`.
    pub fn le(&self, other: &Duration) -> (b: bool)
        ensures
            b == (self.view() <= other.view()),
    {
        self.as_nanos() <= other.as_nanos()
    }
}

/// A point on the monotonic clock, held as the time since the clock's origin.
#[derive(Clone, Copy, Debug, PartialEq, Eq, Structural)]
pub struct Instant {
    since_origin: Duration,
}

impl Instant {
    /// The time since the clock's origin, in nanoseconds.
    pub closed spec fn view(self) -> nat {
        self.since_origin.view()
    }

    /// The point that lies `elapsed` after the clock's origin.
    pub fn from_elapsed(elapsed: Duration) -> (i: Instant)
        ensures
            i.view() == elapsed.view(),
    {
        Instant { since_origin: elapsed }
    }

    /// The time from the clock's origin to this point.
    pub fn since_origin(&self) -> (d: Duration)
        ensures
            d.view() == self.view(),
    {
        self.since_origin
    }

    /// Whether a reading of the clock, in seconds and nanoseconds, names a
    /// point at or after the clock's origin.
    pub open spec fn reading_in_range(secs: i64, nanos: i64) -> bool {
        0 <= secs && 0 <= nanos < NANOS_PER_SEC
    }

    /// The point named by a reading of the clock: `secs` seconds and `nanos`
    /// nanoseconds after its origin. `None` where the reading names no such
    /// point.
    pub fn from_reading(secs: i64, nanos: i64) -> (i: Option<Instant>)
        ensures
            i is Some <==> Self::reading_in_range(secs, nanos),
            i matches Some(t) ==> t.view() == secs * (NANOS_PER_SEC as nat) + nanos,
    {
        if secs >= 0 && 0 <= nanos && nanos < NANOS_PER_SEC as i64 {
            match Duration::checked_new(secs as u64, nanos as u32) {
                Some(d) => Some(Instant { since_origin: d }),
                None => None,
            }
        } else {
            None
        }
    }

    /// Reads the monotonic clock. `None` where the system refuses the reading
    /// or hands back a value outside the range of a time since the origin;
    /// otherwise the point the reading names, which lies within a signed
    /// 64-bit count of seconds from the origin.
    pub fn now() -> (i: Option<Instant>)
        ensures
            i matches Some(t) ==> exists|secs: i64, nanos: i64| #[trigger] Self::reading_in_range(secs, nanos)
                && t.view() == secs * (NANOS_PER_SEC as nat) + nanos,
    {
        match monotonic_clock_reading() {
            Some((secs, nanos)) => Instant::from_reading(secs, nanos),
            None => None,
        }
    }

    /// The point `d` earlier; `None` where that would lie before the clock's origin.
    pub fn checked_sub(&self, d: &Duration) -> (r: Option<Instant>)
        ensures
            (d.view() <= self.view()) <==> r is Some,
            r matches Some(r) ==> r.view() == self.view() - d.view(),
    {
        let a = self.since_origin.as_nanos();
        let b = d.as_nanos();
        if b <= a {
            match Duration::from_nanos_checked(a - b) {
                Some(e) => Some(Instant { since_origin: e }),
                None => None,
            }
        } else {
            None
        }
    }

    /// Whether this point lies strictly before `other`.
    pub fn lt(&self, other: &Instant) -> (b: bool)
        ensures
            b == (self.view() < other.view()),
    {
        self.since_origin.as_nanos() < other.since_origin.as_nanos()
    }
}

/// Reads `CLOCK_MONOTONIC` through `nix::time::clock_gettime` and hands back its
/// seconds and nanoseconds; `None` where the call reports an error. Nothing is
/// claimed of the values: they come from the machine's clock.
#[verifier::external_body]
fn monotonic_clock_reading() -> (r: Option<(i64, i64)>) {
    match nix::time::clock_gettime(nix::time::ClockId::CLOCK_MONOTONIC) {
        Ok(t) => Some((t.tv_sec(), t.tv_nsec())),
        Err(_) => None,
    }
}

} // verus!
