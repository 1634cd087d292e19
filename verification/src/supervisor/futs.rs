//! The decisions of the supervisor's futures: the restart loop and the wait
//! for a child that may be aborted.
use vstd::prelude::*;
use vstd::string::*;

use crate::error::SupervisorError;
use crate::supervisor::retry::{after_mark, RetryGuard};

verus! {

/// How many rounds of `outputs` yielded a state.
pub open spec fn count_some<I>(outputs: Seq<Option<I>>) -> nat
    decreases outputs.len(),
{
    if outputs.len() == 0 {
        0
    } else {
        count_some(outputs.drop_last()) + if outputs.last() is Some { 1nat } else { 0nat }
    }
}

/// Repeatedly poll a given future with a given initial state until it returns None state or
/// retry guard fails.
/// Resolves to `fail` if retry guard fails.
///
/// This value holds the loop's state; the executor that polls the rounds
/// asks it to start a round and tells it how each round ended.
pub struct RepeatedActFut<F, Fut, I> {
    factory: F,
    fut: Option<Fut>,
    state: Option<I>,
    retry_guard: RetryGuard,
    initial: Ghost<I>,
    starts: Ghost<Seq<I>>,
    outputs: Ghost<Seq<Option<I>>>,
    marks: Ghost<nat>,
    granted: Ghost<nat>,
}

impl<F, Fut, I> RepeatedActFut<F, Fut, I> {
    /// The state that the next round starts from, if one is waiting.
    pub closed spec fn next_state(self) -> Option<I> {
        self.state
    }

    /// The round in flight, if any.
    pub closed spec fn round(self) -> Option<Fut> {
        self.fut
    }

    /// Whether a round is in flight.
    pub open spec fn in_round(self) -> bool {
        self.round() is Some
    }

    /// The restart accounting of the loop.
    pub closed spec fn guard(self) -> RetryGuard {
        self.retry_guard
    }

    /// The maker of rounds.
    pub closed spec fn factory_view(self) -> F {
        self.factory
    }

    /// The state the loop was started with.
    pub closed spec fn initial_state(self) -> I {
        self.initial@
    }

    /// The states the rounds so far were started from, in order.
    pub closed spec fn starts(self) -> Seq<I> {
        self.starts@
    }

    /// What the rounds that ended so far yielded, in order.
    pub closed spec fn outputs(self) -> Seq<Option<I>> {
        self.outputs@
    }

    /// How many times the retry guard was marked.
    pub closed spec fn marks(self) -> nat {
        self.marks@
    }

    /// How many marks of the retry guard granted another round.
    pub closed spec fn granted(self) -> nat {
        self.granted@
    }

    /// The bookkeeping of the loop: the first round starts from the initial
    /// state and each later one from what the round before it yielded; a
    /// waiting state is the initial one or the last yield; the guard was
    /// marked once per round that yielded a state; a round was started, or a
    /// state waits, once at the outset and once per mark that granted one.
    pub closed spec fn well_formed(self) -> bool {
        &&& self.starts@.len() == self.outputs@.len() + if self.fut is Some { 1nat } else { 0nat }
        &&& self.starts@.len() > 0 ==> self.starts@[0] == self.initial@
        &&& forall|k: int| 0 <= k < self.outputs@.len() && k + 1 < self.starts@.len()
            ==> #[trigger] self.outputs@[k] == Some(self.starts@[k + 1])
        &&& self.state matches Some(s) ==> self.fut is None && if self.outputs@.len() == 0 {
            s == self.initial@
        } else {
            self.outputs@.last() == Some(s)
        }
        &&& self.marks@ == count_some(self.outputs@)
        &&& self.starts@.len() + (if self.state is Some { 1nat } else { 0nat }) == 1 + self.granted@
        &&& self.granted@ <= self.marks@
    }

    pub fn new(factory: F, initial_state: I, retry_guard: RetryGuard) -> (r: Self)
        ensures
            r.well_formed(),
            r.next_state() == Some(initial_state),
            !r.in_round(),
            r.guard() == retry_guard,
            r.factory_view() == factory,
            r.initial_state() == initial_state,
            r.starts() == Seq::<I>::empty(),
            r.outputs() == Seq::<Option<I>>::empty(),
            r.marks() == 0,
            r.granted() == 0,
    {
        let ghost g = initial_state;
        Self {
            factory,
            fut: None,
            state: Some(initial_state),
            retry_guard,
            initial: Ghost(g),
            starts: Ghost(Seq::empty()),
            outputs: Ghost(Seq::empty()),
            marks: Ghost(0),
            granted: Ghost(0),
        }
    }

    /// The maker of rounds.
    pub fn factory(&self) -> (f: &F)
        ensures
            *f == self.factory_view(),
    {
        &self.factory
    }

    /// The round in flight, to be polled in place. The bookkeeping stays
    /// sound as long as a round in flight stays in flight and no round is
    /// put in where there was none.
    pub fn round_mut(&mut self) -> (r: &mut Option<Fut>)
        ensures
            *r == old(self).round(),
            final(self).round() == *final(r),
            final(self).next_state() == old(self).next_state(),
            final(self).guard() == old(self).guard(),
            final(self).factory_view() == old(self).factory_view(),
            final(self).initial_state() == old(self).initial_state(),
            final(self).starts() == old(self).starts(),
            final(self).outputs() == old(self).outputs(),
            final(self).marks() == old(self).marks(),
            final(self).granted() == old(self).granted(),
            old(self).well_formed() && ((*final(r)) is Some == (*r) is Some) ==> final(self).well_formed(),
    {
        &mut self.fut
    }

    /// A round ended with `output`. `Some(true)`: the loop is done because the
    /// round asked for no further round. `Some(false)`: the loop gives up
    /// because the retry guard refused another round. `None`: another round
    /// starts from `output`. The guard is marked exactly when the round
    /// yielded a state.
    pub fn end_round(&mut self, output: Option<I>) -> (r: Option<bool>)
        requires
            old(self).well_formed(),
            old(self).in_round(),
            output is Some ==> old(self).guard().window_in_reach(),
        ensures
            final(self).well_formed(),
            !final(self).in_round(),
            final(self).outputs() == old(self).outputs().push(output),
            final(self).starts() == old(self).starts(),
            final(self).initial_state() == old(self).initial_state(),
            final(self).factory_view() == old(self).factory_view(),
            output is None ==> r == Some(true) && final(self).guard() == old(self).guard()
                && final(self).marks() == old(self).marks() && final(self).next_state() is None,
            output is Some ==> final(self).marks() == old(self).marks() + 1,
            output is Some ==> (exists|now: nat| final(self).guard().events()
                == #[trigger] after_mark(old(self).guard().events(), now, old(self).guard().window())),
            output is Some ==> final(self).guard().window() == old(self).guard().window()
                && final(self).guard().limit() == old(self).guard().limit(),
            output is Some ==> (r == Some(false) <==> final(self).guard().events().len() >= final(self).guard().limit()),
            output is Some ==> (r is None <==> final(self).guard().events().len() < final(self).guard().limit()),
            r is None ==> final(self).next_state() == output && final(self).granted() == old(self).granted() + 1,
            r is Some ==> final(self).granted() == old(self).granted(),
            r is Some ==> final(self).next_state() is None,
            r matches Some(b) ==> (b <==> output is None),
    {
        self.fut = None;
        proof {
            self.outputs@ = self.outputs@.push(output);
            assert(self.outputs@.drop_last() =~= old(self).outputs@);
        }
        match output {
            Some(res) => {
                let ghost g0 = self.retry_guard;
                let within = self.retry_guard.mark();
                proof {
                    self.marks@ = self.marks@ + 1;
                    let now = choose|now: nat| self.retry_guard.events() == #[trigger] after_mark(g0.events(), now, g0.window());
                    assert(self.guard().events() == after_mark(old(self).guard().events(), now, old(self).guard().window()));
                }
                if within {
                    self.state = Some(res);
                    proof {
                        self.granted@ = self.granted@ + 1;
                    }
                    None
                } else {
                    Some(false)
                }
            },
            None => Some(true),
        }
    }
}

impl<F: Fn(I) -> Fut, Fut, I> RepeatedActFut<F, Fut, I> {
    /// Starts a round from the waiting state: the factory makes the round
    /// from it. `false` where no state waits, and nothing changes.
    pub fn start_round(&mut self) -> (started: bool)
        requires
            old(self).well_formed(),
            !old(self).in_round(),
            old(self).next_state() matches Some(s) ==> old(self).factory_view().requires((s,)),
        ensures
            final(self).well_formed(),
            started == old(self).next_state() is Some,
            final(self).guard() == old(self).guard(),
            final(self).factory_view() == old(self).factory_view(),
            final(self).initial_state() == old(self).initial_state(),
            final(self).outputs() == old(self).outputs(),
            final(self).marks() == old(self).marks(),
            final(self).granted() == old(self).granted(),
            final(self).next_state() is None,
            started ==> final(self).starts() == old(self).starts().push(old(self).next_state().unwrap()),
            started ==> (final(self).round() matches Some(f)
                && old(self).factory_view().ensures((old(self).next_state().unwrap(),), f)),
            !started ==> final(self).starts() == old(self).starts() && !final(self).in_round(),
    {
        match self.state.take() {
            Some(s) => {
                let ghost gs = s;
                let f = (self.factory)(s);
                self.fut = Some(f);
                proof {
                    self.starts@ = self.starts@.push(gs);
                }
                true
            },
            None => false,
        }
    }
}

/// The whole run of the loop: the factory is called once per round; the
/// first round starts from the initial state and every later one from the
/// state the round before it yielded; the retry guard is marked once per
/// round that yielded a state and never for one that yielded none; and the
/// factory was called once at the outset and once per mark that granted
/// another round, so that, once the loop has ended (no state waits and no
/// round is in flight), it was called one time more than marks granted.
pub proof fn lemma_rounds_follow_their_yields<F, Fut, I>(r: RepeatedActFut<F, Fut, I>)
    requires
        r.well_formed(),
    ensures
        r.starts().len() == r.outputs().len() + if r.in_round() { 1nat } else { 0nat },
        r.starts().len() > 0 ==> r.starts()[0] == r.initial_state(),
        forall|k: int| 0 <= k < r.outputs().len() && k + 1 < r.starts().len()
            ==> #[trigger] r.outputs()[k] == Some(r.starts()[k + 1]),
        r.marks() == count_some(r.outputs()),
        r.starts().len() + (if r.next_state() is Some { 1nat } else { 0nat }) == 1 + r.granted(),
        r.granted() <= r.marks(),
        r.next_state() is None && !r.in_round() ==> r.starts().len() == 1 + r.granted(),
{
}

/// What a finished wait for a child reports of how the child exited.
#[derive(Debug, Clone, Copy, PartialEq, Eq, Structural)]
pub struct ExitStatusInfo {
    /// Whether the child exited successfully.
    pub success: bool,
    /// The exit code, if the child exited on its own.
    pub code: Option<i32>,
    /// The signal that terminated the child, if one did.
    pub signal: Option<i32>,
}

/// The name of a signal in the `signal-hook` table, if it holds the signal.
pub uninterp spec fn signal_name_of(signal: i32) -> Option<Seq<char>>;

/// Looks up the name of a signal through `signal_hook::low_level::signal_name`.
/// The name is a function of the number: a fixed table of the library.
#[verifier::external_body]
fn signal_name(signal: i32) -> (r: Option<String>)
    ensures
        r is None <==> signal_name_of(signal) is None,
        r matches Some(n) ==> signal_name_of(signal) == Some(n@),
{
    signal_hook::low_level::signal_name(signal).map(|n| n.to_string())
}

/// Whether an exit status can be told apart: a failed exit carries a code or a signal.
pub open spec fn exit_status_complete(status: ExitStatusInfo) -> bool {
    status.success || status.code is Some || status.signal is Some
}

/// The name that the signal table gives the signal that ended a child, if a
/// signal did.
pub open spec fn signal_name_for(status: Option<ExitStatusInfo>) -> Option<Seq<char>> {
    match status {
        Some(s) => match s.signal {
            Some(sig) => signal_name_of(sig),
            None => None,
        },
        None => None,
    }
}

/// Whether `r` is the judgement of a child's end. `None`: waiting for the
/// child failed, so it was already gone. A successful exit is fine; a failed
/// one is an error with its exit code, or else with the name of the signal
/// that ended it.
pub open spec fn judged_exit(status: Option<ExitStatusInfo>, r: Result<(), SupervisorError>) -> bool {
    judged_exit_with(status, signal_name_for(status), r)
}

/// Whether `r` is the judgement of a child's end, where `name` is the name of
/// the signal that ended it, if known: as `judged_exit`, with `UNKNOWN` for
/// an unknown name.
pub open spec fn judged_exit_with(status: Option<ExitStatusInfo>, name: Option<Seq<char>>, r: Result<(), SupervisorError>) -> bool {
    match status {
        None => r == Err::<(), SupervisorError>(SupervisorError::AlreadyDied),
        Some(s) => if s.success {
            r is Ok
        } else {
            match s.code {
                Some(code) => r == Err::<(), SupervisorError>(SupervisorError::NonZeroExit(code)),
                None => r matches Err(SupervisorError::ExitBySignal(n)) && n@ == match name {
                    Some(known) => known,
                    None => "UNKNOWN"@,
                },
            }
        },
    }
}

/// Whether the judgement of a child's end needs the name of a signal: the
/// child failed without an exit code.
pub open spec fn needs_signal_name(status: Option<ExitStatusInfo>) -> bool {
    status matches Some(s) && !s.success && s.code is None
}

/// Judges how a child ended, given the name of the signal that ended it,
/// if known.
pub fn judge_exit(status: Option<ExitStatusInfo>, name: Option<&str>) -> (r: Result<(), SupervisorError>)
    ensures
        judged_exit_with(status, match name { Some(n) => Some(n@), None => None }, r),
{
    match status {
        None => Err(SupervisorError::AlreadyDied),
        Some(s) => {
            if s.success {
                Ok(())
            } else {
                match s.code {
                    Some(code) => Err(SupervisorError::NonZeroExit(code)),
                    None => {
                        let n = match name {
                            Some(n) => n.to_owned(),
                            None => String::from_str("UNKNOWN"),
                        };
                        Err(SupervisorError::ExitBySignal(n))
                    },
                }
            }
        },
    }
}

/// Judges how a child ended, with the signal's name from the signal table.
pub fn exit_result(status: Option<ExitStatusInfo>) -> (r: Result<(), SupervisorError>)
    requires
        status matches Some(s) ==> exit_status_complete(s),
    ensures
        judged_exit(status, r),
{
    let name = match status {
        Some(s) => if !s.success && s.code.is_none() {
            signal_name(s.signal.unwrap())
        } else {
            None
        },
        None => None,
    };
    match &name {
        Some(n) => judge_exit(status, Some(n.as_str())),
        None => judge_exit(status, None),
    }
}

/// Why the wait for a child ended.
#[derive(Debug, Clone, PartialEq, Eq)]
pub enum WaitAbortResult {
    /// The caretaker was asked to stop the child.
    StopSignalReceived,
    /// The health checks gave up on the child.
    UnhealthySignalReceived,
    /// The child exited successfully.
    Exit,
    /// The child ended with an error.
    ExitWithError(SupervisorError),
}

/// One poll of the wait for a child: a stop request wins over an unhealthy
/// report, which wins over the child's exit. `None` while nothing is ready.
/// `exited` is `Some` once the wait for the child has finished, with the
/// child's exit status, or `None` where waiting failed.
pub fn wait_abort_step(stop_ready: bool, unhealthy_ready: bool, exited: Option<Option<ExitStatusInfo>>) -> (r: Option<WaitAbortResult>)
    requires
        !stop_ready && !unhealthy_ready ==> (exited matches Some(Some(s)) ==> exit_status_complete(s)),
    ensures
        stop_ready ==> r == Some(WaitAbortResult::StopSignalReceived),
        !stop_ready && unhealthy_ready ==> r == Some(WaitAbortResult::UnhealthySignalReceived),
        !stop_ready && !unhealthy_ready && exited is None ==> r is None,
        !stop_ready && !unhealthy_ready ==> (exited matches Some(st) ==> (r matches Some(w) && match w {
            WaitAbortResult::Exit => judged_exit(st, Ok(())),
            WaitAbortResult::ExitWithError(e) => judged_exit(st, Err(e)),
            _ => false,
        })),
{
    if stop_ready {
        Some(WaitAbortResult::StopSignalReceived)
    } else if unhealthy_ready {
        Some(WaitAbortResult::UnhealthySignalReceived)
    } else {
        match exited {
            None => None,
            Some(status) => match exit_result(status) {
                Ok(()) => Some(WaitAbortResult::Exit),
                Err(e) => Some(WaitAbortResult::ExitWithError(e)),
            },
        }
    }
}

} // verus!
