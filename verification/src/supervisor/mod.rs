//! Keeping programs alive: restart limits, the restart loop, health checks
//! and the lifecycle of each supervised program.
use vstd::prelude::*;

pub mod caretaker;
pub mod futs;
pub mod health;
pub mod retry;

verus! {

/// Wait until every supervised program has stopped for good.
#[derive(Debug)]
pub struct Join;

/// Terminate every supervised program.
#[derive(Debug)]
pub struct TerminateAll;

/// Ask every supervised program for its lifecycle.
#[derive(Debug)]
pub struct GetStatusAll;

} // verus!
