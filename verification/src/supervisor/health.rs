//! The decisions of the health checks of one program.
use vstd::prelude::*;
use vstd::string::*;

use crate::error::{health_error_text, HealthError};
use crate::logger::{Custom, Level};
use crate::supervisor::caretaker::HealthState;
use crate::text::{append_decimal, decimal};
use crate::time::Duration;

verus! {

/// Whether an HTTP status code reports success: 200 to 299.
pub open spec fn is_success_status(status: u16) -> bool {
    200 <= status < 300
}

/// The message logged when a health check fails.
pub open spec fn failure_text(count: nat, e: HealthError) -> Seq<char> {
    "Health check failed ("@ + decimal(count) + "): "@ + health_error_text(e)
}

/// Once the failures in a row span the grace period, every further failure
/// does too: giving up is never undone by more failures.
pub proof fn lemma_giving_up_persists(interval: nat, grace: nat, failures: nat)
    requires
        interval * failures >= grace,
    ensures
        interval * (failures + 1) >= grace,
{
    assert(interval * (failures + 1) == interval * failures + interval) by (nonlinear_arith);
}

/// How many checks at the end of `checks` failed in a row (`false` is a
/// failed check, `true` a successful one).
pub open spec fn failures_in_a_row(checks: Seq<bool>) -> nat
    decreases checks.len(),
{
    if checks.len() == 0 || checks.last() {
        0
    } else {
        failures_in_a_row(checks.drop_last()) + 1
    }
}

/// The count of failures in a row is the number of checks since the start
/// or the last successful check: the last `k` checks failed, and the one
/// before them, if any, succeeded.
pub proof fn lemma_failures_counted_since_last_success(checks: Seq<bool>)
    ensures
        ({
            let k = failures_in_a_row(checks);
            &&& k <= checks.len()
            &&& forall|j: int| checks.len() - k <= j < checks.len() ==> !#[trigger] checks[j]
            &&& k < checks.len() ==> checks[checks.len() - k - 1]
        }),
    decreases checks.len(),
{
    if checks.len() > 0 && !checks.last() {
        let rest = checks.drop_last();
        lemma_failures_counted_since_last_success(rest);
        assert forall|j: int| checks.len() - failures_in_a_row(checks) <= j < checks.len() implies !#[trigger] checks[j] by {
            if j < checks.len() - 1 {
                assert(rest[j] == checks[j]);
            }
        }
        if failures_in_a_row(checks) < checks.len() {
            assert(rest[rest.len() - failures_in_a_row(rest) - 1] == checks[checks.len() - failures_in_a_row(checks) - 1]);
        }
    }
}

/// What the health checks report after one check.
#[derive(Debug)]
pub struct HealthVerdict {
    /// The health to report to the caretaker.
    pub report: HealthState,
    /// The record to log, if any.
    pub log: Option<Custom>,
    /// Whether the checks give up on the program: it is to be stopped and the
    /// checks end.
    pub stop: bool,
}

/// Counts failed health checks in a row and decides when to give up on a program.
pub struct HealthMonitor {
    name: String,
    interval: Duration,
    grace_period: Duration,
    unhealthy_count: usize,
    stopped: bool,
    checks: Ghost<Seq<bool>>,
}

impl HealthMonitor {
    /// The failed checks since the last successful one.
    pub closed spec fn failures(self) -> nat {
        self.unhealthy_count as nat
    }

    /// Whether the checks have given up on the program.
    pub closed spec fn has_stopped(self) -> bool {
        self.stopped
    }

    /// The outcomes of the checks so far, in order: `true` for a success.
    pub closed spec fn history(self) -> Seq<bool> {
        self.checks@
    }

    /// The count of failures is that of the failures in a row at the end of
    /// the history.
    pub closed spec fn well_formed(self) -> bool {
        self.unhealthy_count as nat == failures_in_a_row(self.checks@)
    }

    /// The time between checks, in nanoseconds.
    pub closed spec fn interval_view(self) -> nat {
        self.interval.view()
    }

    /// How long failures are tolerated, in nanoseconds.
    pub closed spec fn grace_view(self) -> nat {
        self.grace_period.view()
    }

    /// The program's name.
    pub closed spec fn name_view(self) -> Seq<char> {
        self.name@
    }

    /// Whether one more failure can be counted: the checks have not given up,
    /// and the count and the time it stands for stay in range.
    pub open spec fn can_fail_once_more(self) -> bool {
        &&& !self.has_stopped()
        &&& self.failures() + 1 <= u32::MAX
        &&& self.interval_view() * (self.failures() + 1) <= Duration::max_nanos()
    }

    /// Health checks of the named program, none failed yet.
    pub fn new(name: String, interval: Duration, grace_period: Duration) -> (m: Self)
        ensures
            m.well_formed(),
            m.history() == Seq::<bool>::empty(),
            m.failures() == 0,
            !m.has_stopped(),
            m.interval_view() == interval.view(),
            m.grace_view() == grace_period.view(),
            m.name_view() == name@,
    {
        HealthMonitor { name, interval, grace_period, unhealthy_count: 0, stopped: false, checks: Ghost(Seq::empty()) }
    }

    /// The time between checks.
    pub fn interval(&self) -> (d: Duration)
        ensures
            d.view() == self.interval_view(),
    {
        self.interval
    }

    /// Whether one more failure can be counted.
    pub fn can_record_failure(&self) -> (b: bool)
        ensures
            b == self.can_fail_once_more(),
    {
        if self.stopped || self.unhealthy_count >= u32::MAX as usize {
            return false;
        }
        self.interval.checked_mul((self.unhealthy_count + 1) as u32).is_some()
    }

    /// Judges the answer to a check: a success status passes, any other
    /// status fails with that status.
    pub fn check_response(status: u16) -> (r: Result<(), HealthError>)
        ensures
            r is Ok <==> is_success_status(status),
            r is Err ==> r == Err::<(), HealthError>(HealthError::Status(status)),
    {
        if 200 <= status && status < 300 {
            Ok(())
        } else {
            Err(HealthError::Status(status))
        }
    }

    /// Counts the outcome of one check. A success resets the count and reports
    /// the program healthy. A failure reports it unhealthy, counts it, logs it,
    /// and gives up on the program once the failures in a row, each an
    /// interval apart, span the grace period. Over a run of checks, the count
    /// is that of the failures since the start or the last success, and the
    /// checks give up at most once.
    pub fn record(&mut self, outcome: Result<(), HealthError>) -> (v: HealthVerdict)
        requires
            old(self).well_formed(),
            outcome is Err ==> old(self).can_fail_once_more(),
        ensures
            final(self).well_formed(),
            final(self).history() == old(self).history().push(outcome is Ok),
            final(self).failures() == failures_in_a_row(final(self).history()),
            old(self).has_stopped() ==> final(self).has_stopped(),
            final(self).interval_view() == old(self).interval_view(),
            final(self).grace_view() == old(self).grace_view(),
            final(self).name_view() == old(self).name_view(),
            outcome is Ok ==> {
                &&& v.report == HealthState::Healthy
                &&& v.log is None
                &&& !v.stop
                &&& final(self).failures() == 0
                &&& final(self).has_stopped() == old(self).has_stopped()
            },
            outcome matches Err(e) ==> {
                &&& v.report == HealthState::Unhealthy
                &&& final(self).failures() == old(self).failures() + 1
                &&& v.stop == (old(self).interval_view() * final(self).failures() >= old(self).grace_view())
                &&& final(self).has_stopped() == v.stop
                &&& v.stop ==> !old(self).has_stopped()
                &&& v.log matches Some(c) && c.level == Level::Error && c.name@ == old(self).name_view()
                    && c.data@ == failure_text(final(self).failures(), e)
            },
    {
        let ghost ok = outcome is Ok;
        proof {
            self.checks@ = self.checks@.push(ok);
            assert(self.checks@.drop_last() =~= old(self).checks@);
        }
        match outcome {
            Ok(()) => {
                self.unhealthy_count = 0;
                HealthVerdict { report: HealthState::Healthy, log: None, stop: false }
            },
            Err(e) => {
                self.unhealthy_count = self.unhealthy_count + 1;
                let mut data = String::from_str("Health check failed (");
                append_decimal(&mut data, self.unhealthy_count as u64);
                data.append("): ");
                let text = e.message();
                data.append(text.as_str());
                let log = Custom::new_with_level(Level::Error, self.name.clone(), data);
                let spent = self.interval.checked_mul(self.unhealthy_count as u32);
                let stop = match spent {
                    Some(d) => self.grace_period.le(&d),
                    None => false,
                };
                if stop {
                    self.stopped = true;
                }
                HealthVerdict { report: HealthState::Unhealthy, log: Some(log), stop }
            },
        }
    }
}

} // verus!
