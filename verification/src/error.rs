//! Errors of the supervisor and of its health checks, with their messages.
use vstd::prelude::*;
use vstd::string::*;

use crate::text::{decimal, signed_decimal, signed_decimal_string, append_decimal};

verus! {

/// Why a supervised program could not be run or why it stopped.
#[derive(Debug, Clone, PartialEq, Eq)]
pub enum SupervisorError {
    /// The command line holds no command.
    Command,
    /// The child could not be spawned; the system's reason.
    Spawn(String),
    /// Waiting for the child failed: it was already gone.
    AlreadyDied,
    /// The child exited with this non-zero code.
    NonZeroExit(i32),
    /// The child was terminated by the named signal.
    ExitBySignal(String),
}

/// The message of a supervisor error.
pub open spec fn supervisor_error_text(e: SupervisorError) -> Seq<char> {
    match e {
        SupervisorError::Command => "Invalid command Line"@,
        SupervisorError::Spawn(reason) => "Unable to spawn child - "@ + reason@,
        SupervisorError::AlreadyDied => "Child exited too quickly"@,
        SupervisorError::NonZeroExit(code) => "Child exited with non-zero exit code - "@ + signed_decimal(code as int),
        SupervisorError::ExitBySignal(name) => "Child terminated by signal - "@ + name@,
    }
}

impl SupervisorError {
    /// The human-readable message of this error.
    pub fn message(&self) -> (m: String)
        ensures
            m@ == supervisor_error_text(*self),
    {
        match self {
            SupervisorError::Command => String::from_str("Invalid command Line"),
            SupervisorError::Spawn(reason) => {
                let mut m = String::from_str("Unable to spawn child - ");
                m.append(reason.as_str());
                m
            },
            SupervisorError::AlreadyDied => String::from_str("Child exited too quickly"),
            SupervisorError::NonZeroExit(code) => {
                let mut m = String::from_str("Child exited with non-zero exit code - ");
                let digits = signed_decimal_string(*code as i64);
                m.append(digits.as_str());
                m
            },
            SupervisorError::ExitBySignal(name) => {
                let mut m = String::from_str("Child terminated by signal - ");
                m.append(name.as_str());
                m
            },
        }
    }
}

/// Why a health check failed.
#[derive(Debug, Clone, PartialEq, Eq)]
pub enum HealthError {
    /// The request could not be sent; the client's reason.
    Send(String),
    /// The program answered with this non-success status code.
    Status(u16),
}

/// The reason phrase that the HTTP library gives a status code.
pub uninterp spec fn canonical_reason_of(code: u16) -> Option<Seq<char>>;

/// Looks up the canonical reason phrase of a status code through
/// `http::StatusCode::canonical_reason` (re-exported by `awc`). The contract
/// names the phrase: it is a fixed table of the library.
#[verifier::external_body]
fn canonical_reason(code: u16) -> (r: Option<String>)
    ensures
        r is None <==> canonical_reason_of(code) is None,
        r matches Some(s) ==> canonical_reason_of(code) == Some(s@),
{
    match awc::http::StatusCode::from_u16(code) {
        Ok(status) => status.canonical_reason().map(|t| t.to_string()),
        Err(_) => None,
    }
}

/// How a status code reads: its number and reason phrase.
pub open spec fn status_text(code: u16) -> Seq<char> {
    status_text_with(code, canonical_reason_of(code))
}

/// How a status code reads with the given reason phrase, if it has one.
pub open spec fn status_text_with(code: u16, reason: Option<Seq<char>>) -> Seq<char> {
    decimal(code as nat) + " "@ + match reason {
        Some(r) => r,
        None => "<unknown status code>"@,
    }
}

/// How a status code reads: its number, a space, and the given reason
/// phrase, or `<unknown status code>` where it has none.
pub fn status_line(code: u16, reason: Option<&str>) -> (s: String)
    ensures
        s@ == status_text_with(code, match reason { Some(r) => Some(r@), None => None }),
{
    let mut s = String::new();
    append_decimal(&mut s, code as u64);
    s.append(" ");
    match reason {
        Some(r) => s.append(r),
        None => s.append("<unknown status code>"),
    }
    assert(s@ =~= status_text_with(code, match reason { Some(r) => Some(r@), None => None }));
    s
}

/// The message of a health-check error.
pub open spec fn health_error_text(e: HealthError) -> Seq<char> {
    match e {
        HealthError::Send(reason) => "Unable to send request to upstream - "@ + reason@,
        HealthError::Status(code) => "Non-success response status code - "@ + status_text(code),
    }
}

impl HealthError {
    /// The human-readable message of this error.
    pub fn message(&self) -> (m: String)
        ensures
            m@ == health_error_text(*self),
    {
        match self {
            HealthError::Send(reason) => {
                let mut m = String::from_str("Unable to send request to upstream - ");
                m.append(reason.as_str());
                m
            },
            HealthError::Status(code) => {
                let mut m = String::from_str("Non-success response status code - ");
                let reason = canonical_reason(*code);
                let line = match &reason {
                    Some(r) => status_line(*code, Some(r.as_str())),
                    None => status_line(*code, None),
                };
                m.append(line.as_str());
                m
            },
        }
    }
}

} // verus!
