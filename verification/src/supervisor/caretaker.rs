//! The lifecycle of one supervised program and the caretaker's decisions
//! about it.
use vstd::prelude::*;
use vstd::string::*;

use crate::config::Program;
use crate::error::{supervisor_error_text, SupervisorError};
use crate::logger::{Custom, Level};
use crate::proxy::{authority_accepted, loopback_authority, loopback_target, path_and_query_accepted, UpstreamTarget};
use crate::supervisor::futs::WaitAbortResult;
use crate::time::Duration;

verus! {

/// What the health checks last said of a running program.
#[derive(Debug, Copy, Clone, PartialEq, Eq, Structural)]
pub enum HealthState {
    Healthy,
    Unhealthy,
    Unknown,
}

/// Where a supervised program stands.
#[derive(Debug, Copy, Clone, PartialEq, Eq, Structural)]
pub enum Lifecycle {
    /// Process is starting. A program without a health check stays here
    /// while its child runs.
    Starting,
    /// Process is running.
    Running(HealthState),
    /// Process is being terminated.
    Terminating,
    /// Process is terminated.
    Terminated,
    /// Process has died and no further retry is scheduled.
    Failed,
}

/// Notify the caretaker to update running status.
#[derive(Debug, Copy, Clone, PartialEq, Eq, Structural)]
pub struct SetHealthState(pub HealthState);

/// Ask the caretaker for the program's lifecycle.
#[derive(Debug)]
pub struct GetStatus;

/// Wait for the child to exit.
#[derive(Debug)]
pub struct Wait;

/// Send terminate signal to child, and wait until it exits.
#[derive(Debug)]
pub struct Terminate;

/// How one run of the program ended.
#[derive(Debug, Clone, PartialEq, Eq)]
pub enum RunOutcome {
    /// The program exited without error.
    NormalExit,
    /// The program was stopped on request.
    Terminated,
    /// The program was stopped because its health checks gave up.
    Unhealthy,
    /// The program could not be spawned, or it ended with an error.
    Error(SupervisorError),
}

impl RunOutcome {
    /// How a run ended, from the spawn and the wait for the child.
    pub fn of_run(run: Result<WaitAbortResult, SupervisorError>) -> (r: RunOutcome)
        ensures
            run matches Err(e) ==> r == RunOutcome::Error(e),
            run matches Ok(WaitAbortResult::StopSignalReceived) ==> r == RunOutcome::Terminated,
            run matches Ok(WaitAbortResult::UnhealthySignalReceived) ==> r == RunOutcome::Unhealthy,
            run matches Ok(WaitAbortResult::Exit) ==> r == RunOutcome::NormalExit,
            run matches Ok(WaitAbortResult::ExitWithError(e)) ==> r == RunOutcome::Error(e),
    {
        match run {
            Ok(WaitAbortResult::StopSignalReceived) => RunOutcome::Terminated,
            Ok(WaitAbortResult::UnhealthySignalReceived) => RunOutcome::Unhealthy,
            Ok(WaitAbortResult::Exit) => RunOutcome::NormalExit,
            Ok(WaitAbortResult::ExitWithError(e)) => RunOutcome::Error(e),
            Err(e) => RunOutcome::Error(e),
        }
    }
}

/// Where and how often a program's health is checked.
#[derive(Debug, Clone)]
pub struct HealthConfig {
    pub target: UpstreamTarget,
    pub interval: Duration,
    pub grace_period: Duration,
}

/// What the caretaker does about health checks once a child is spawned.
#[derive(Debug, Clone)]
pub enum HealthPlan {
    /// The program has no health check.
    Unchecked,
    /// Check the program as configured.
    Checked(HealthConfig),
    /// The configured check path does not form a URI.
    InvalidUri,
}

/// The URI of a health check of a program on the loopback interface, where
/// the HTTP library accepts its parts.
pub fn uri_for_check(https: bool, port: u16, path: &str) -> (r: Option<UpstreamTarget>)
    ensures
        r is Some <==> authority_accepted(loopback_authority(port)) && path_and_query_accepted(path@),
        r matches Some(t) ==> t.https == https && t.authority@ == loopback_authority(port)
            && t.path_and_query@ == path@,
{
    loopback_target(https, port, path.to_owned())
}

/// Whether the program's health is checked over HTTP.
pub open spec fn has_health_check(p: Program) -> bool {
    p.http matches Some(http) && http.health_check is Some
}

/// The lifecycle after a health report: a starting or running program is
/// running with that health; a program that is stopping, stopped or failed
/// stays as it is.
pub open spec fn after_health_report(status: Lifecycle, health: HealthState) -> Lifecycle {
    match status {
        Lifecycle::Starting | Lifecycle::Running(_) => Lifecycle::Running(health),
        _ => status,
    }
}

/// A health report never revives a program: one that is terminating,
/// terminated or failed stays so, and any other runs with the reported health.
pub proof fn lemma_health_reports_leave_ended_programs(status: Lifecycle, health: HealthState)
    ensures
        (status is Terminating || status is Terminated || status is Failed)
            ==> after_health_report(status, health) == status,
        (status is Starting || status is Running) ==> after_health_report(status, health) == Lifecycle::Running(health),
        after_health_report(status, health) != Lifecycle::Starting,
{
}

/// Whether the wait for a child ended because the child is to be stopped.
pub open spec fn stops_child(r: WaitAbortResult) -> bool {
    r is StopSignalReceived || r is UnhealthySignalReceived
}

/// The child is stopped exactly when the wait ended without the child having
/// exited: on a stop request and when the health checks gave up, both alike;
/// a child that exited, with or without error, is not stopped again.
pub proof fn lemma_child_stopped_unless_it_exited(r: WaitAbortResult)
    ensures
        stops_child(r) <==> !(r is Exit || r is ExitWithError),
        stops_child(WaitAbortResult::UnhealthySignalReceived) == stops_child(WaitAbortResult::StopSignalReceived),
{
}

/// The message logged when a run ends, and whether another run follows.
pub open spec fn round_report_of(outcome: RunOutcome) -> (Seq<char>, bool) {
    match outcome {
        RunOutcome::NormalExit => ("Exits without error."@, true),
        RunOutcome::Unhealthy => ("Terminated by caretaker."@, true),
        RunOutcome::Terminated => ("Terminated by caretaker."@, false),
        RunOutcome::Error(e) => ("Exits with error: "@ + supervisor_error_text(e) + "."@, true),
    }
}

/// Handles the lifecycle of a child, and book-keeping its status.
#[derive(Debug)]
pub struct Caretaker {
    name: String,
    program: Program,
    status: Lifecycle,
}

impl Caretaker {
    /// The program's lifecycle.
    pub closed spec fn lifecycle(self) -> Lifecycle {
        self.status
    }

    /// The program's name.
    pub closed spec fn name_view(self) -> Seq<char> {
        self.name@
    }

    /// The program's configuration.
    pub closed spec fn program_view(self) -> Program {
        self.program
    }

    /// A caretaker for a program that is about to start. The program names
    /// each environment variable once, as the configuration's map does.
    pub fn new(name: String, program: Program) -> (c: Self)
        requires
            program.env_names_distinct(),
        ensures
            c.lifecycle() == Lifecycle::Starting,
            c.name_view() == name@,
            c.program_view() == program,
    {
        Caretaker { name, program, status: Lifecycle::Starting }
    }

    /// The program's name.
    pub fn name(&self) -> (n: &String)
        ensures
            n@ == self.name_view(),
    {
        &self.name
    }

    /// The program's configuration.
    pub fn program(&self) -> (p: &Program)
        ensures
            *p == self.program_view(),
    {
        &self.program
    }

    /// The program's lifecycle.
    pub fn status(&self) -> (s: Lifecycle)
        ensures
            s == self.lifecycle(),
    {
        self.status
    }

    /// A health report: it only updates a starting or running program.
    pub fn set_health_state(&mut self, msg: SetHealthState)
        ensures
            final(self).lifecycle() == after_health_report(old(self).lifecycle(), msg.0),
            final(self).name_view() == old(self).name_view(),
            final(self).program_view() == old(self).program_view(),
    {
        match self.status {
            Lifecycle::Running(_) | Lifecycle::Starting => {
                self.status = Lifecycle::Running(msg.0);
            },
            _ => {},
        }
    }

    /// A run begins: the program is starting.
    pub fn begin_run(&mut self)
        ensures
            final(self).lifecycle() == Lifecycle::Starting,
            final(self).name_view() == old(self).name_view(),
            final(self).program_view() == old(self).program_view(),
    {
        self.status = Lifecycle::Starting;
    }

    /// The child was spawned. Where the program has a health check, the check
    /// is planned and the program counts as running, its health not yet
    /// known. A program without a health check keeps its status (starting,
    /// after `begin_run`) while its child runs.
    pub fn child_spawned(&mut self) -> (plan: HealthPlan)
        ensures
            final(self).name_view() == old(self).name_view(),
            final(self).program_view() == old(self).program_view(),
            final(self).lifecycle() == if has_health_check(old(self).program_view()) {
                Lifecycle::Running(HealthState::Unknown)
            } else {
                old(self).lifecycle()
            },
            match old(self).program_view().http {
                Some(http) => match http.health_check {
                    Some(check) => {
                        &&& (plan is InvalidUri <==> !(authority_accepted(loopback_authority(http.port))
                                && path_and_query_accepted(check.path@)))
                        &&& (plan matches HealthPlan::Checked(cfg) ==> {
                            &&& cfg.target.https == http.https
                            &&& cfg.target.authority@ == loopback_authority(http.port)
                            &&& cfg.target.path_and_query@ == check.path@
                            &&& cfg.interval == check.interval
                            &&& cfg.grace_period == check.grace
                        })
                        &&& !(plan is Unchecked)
                    },
                    None => plan is Unchecked,
                },
                None => plan is Unchecked,
            },
    {
        match &self.program.http {
            Some(http) => match &http.health_check {
                Some(check) => {
                    self.status = Lifecycle::Running(HealthState::Unknown);
                    let plan = match uri_for_check(http.https, http.port, check.path.as_str()) {
                        Some(target) => HealthPlan::Checked(HealthConfig {
                            target,
                            interval: check.interval,
                            grace_period: check.grace,
                        }),
                        None => HealthPlan::InvalidUri,
                    };
                    plan
                },
                None => HealthPlan::Unchecked,
            },
            None => HealthPlan::Unchecked,
        }
    }

    /// The wait for the child ended. Where the child is to be stopped, the
    /// program is terminating; the answer tells whether to stop the child.
    pub fn wait_resolved(&mut self, result: &WaitAbortResult) -> (stop_child: bool)
        ensures
            stop_child == stops_child(*result),
            final(self).lifecycle() == if stops_child(*result) {
                Lifecycle::Terminating
            } else {
                old(self).lifecycle()
            },
            !(*result is Exit || *result is ExitWithError) ==> stop_child && final(self).lifecycle() == Lifecycle::Terminating,
            (*result is Exit || *result is ExitWithError) ==> !stop_child && final(self).lifecycle() == old(self).lifecycle(),
            final(self).name_view() == old(self).name_view(),
            final(self).program_view() == old(self).program_view(),
    {
        match result {
            WaitAbortResult::StopSignalReceived | WaitAbortResult::UnhealthySignalReceived => {
                self.status = Lifecycle::Terminating;
                true
            },
            _ => false,
        }
    }

    /// The run is over: the process died.
    pub fn run_finished(&mut self)
        ensures
            final(self).lifecycle() == Lifecycle::Terminated,
            final(self).name_view() == old(self).name_view(),
            final(self).program_view() == old(self).program_view(),
    {
        self.status = Lifecycle::Terminated;
    }

    /// The record logged when a run ends, and whether another run follows:
    /// only a run stopped on request ends the runs.
    pub fn round_report(&self, outcome: &RunOutcome) -> (r: (Custom, bool))
        ensures
            r.0.level == Level::Warn,
            r.0.name@ == self.name_view(),
            r.0.data@ == round_report_of(*outcome).0,
            r.1 == round_report_of(*outcome).1,
    {
        let name = self.name.clone();
        match outcome {
            RunOutcome::NormalExit => (Custom::new(name, String::from_str("Exits without error.")), true),
            RunOutcome::Unhealthy => (Custom::new(name, String::from_str("Terminated by caretaker.")), true),
            RunOutcome::Terminated => (Custom::new(name, String::from_str("Terminated by caretaker.")), false),
            RunOutcome::Error(e) => {
                let mut data = String::from_str("Exits with error: ");
                let text = e.message();
                data.append(text.as_str());
                data.append(".");
                (Custom::new(name, data), true)
            },
        }
    }

    /// The runs are over. Where the loop gave up on the retry limit, the
    /// program has failed and an error is logged.
    pub fn daemon_finished(&mut self, completed: bool) -> (log: Option<Custom>)
        ensures
            final(self).lifecycle() == if completed { old(self).lifecycle() } else { Lifecycle::Failed },
            completed <==> log is None,
            log matches Some(c) ==> c.level == Level::Error && c.name@ == old(self).name_view()
                && c.data@ == "Retry limits exceeded, giving up"@,
            final(self).name_view() == old(self).name_view(),
            final(self).program_view() == old(self).program_view(),
    {
        if !completed {
            self.status = Lifecycle::Failed;
            Some(Custom::new_with_level(
                Level::Error,
                self.name.clone(),
                String::from_str("Retry limits exceeded, giving up"),
            ))
        } else {
            None
        }
    }
}

} // verus!
