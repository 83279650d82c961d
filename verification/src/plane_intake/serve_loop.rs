//! Plane serve admission and poll loop: when to claim, sleep, execute or stop.
//! A claim is executed by [`super::claimed_run`].
use vstd::prelude::*;
use vstd::string::*;

use super::claimed_run::{Execution, LifecycleNote};
use super::{source, PlaneIntakeError, PlaneServeOptions};
#[allow(unused_imports)]
use super::source_error;

verus! {

/// What the worker's lifecycle says of new claims.
#[derive(Debug, Clone, Copy)]
pub struct LifecycleGate {
    pub accepting: bool,
    pub draining: bool,
}

/// What the loop does next.
#[derive(Debug, Clone, Copy, PartialEq, Eq, Structural)]
pub enum ServeStep {
    /// Return; `drain` says whether the lifecycle is set to draining first.
    Stop { drain: bool },
    /// Sleep for the poll interval, or until shutdown.
    Sleep,
    /// Ask the plane for the next claim, or until shutdown.
    Claim,
    /// Execute the claim.
    Execute,
    /// Look again.
    Again,
    /// Return the error of the plane.
    Fail,
}

/// Whether as many jobs were taken as are permitted.
pub open spec fn used_up(options: PlaneServeOptions, completed: u64) -> bool {
    options.max_jobs is Some && completed >= options.max_jobs->0
}

/// What the loop does at its start.
pub open spec fn loop_step(
    options: PlaneServeOptions,
    completed: u64,
    shutdown: bool,
    gate: Option<LifecycleGate>,
) -> ServeStep {
    if shutdown || used_up(options, completed) {
        ServeStep::Stop { drain: true }
    } else {
        match gate {
            Some(g) => if g.accepting {
                ServeStep::Claim
            } else if g.draining {
                ServeStep::Stop { drain: false }
            } else {
                ServeStep::Sleep
            },
            None => ServeStep::Claim,
        }
    }
}

/// What the loop does at its start: a worker that accepts no claims sleeps, or
/// stops where it drains.
pub fn next_step(
    options: &PlaneServeOptions,
    completed: u64,
    shutdown: bool,
    gate: Option<LifecycleGate>,
) -> (s: ServeStep)
    ensures
        s == loop_step(*options, completed, shutdown, gate),
{
    if shutdown {
        return ServeStep::Stop { drain: true };
    }
    if let Some(max) = options.max_jobs {
        if completed >= max {
            return ServeStep::Stop { drain: true };
        }
    }
    match gate {
        Some(g) => {
            if g.accepting {
                ServeStep::Claim
            } else if g.draining {
                ServeStep::Stop { drain: false }
            } else {
                ServeStep::Sleep
            }
        },
        None => ServeStep::Claim,
    }
}

/// What asking the plane gave.
#[derive(Debug, Clone, Copy, PartialEq, Eq, Structural)]
pub enum ClaimPoll {
    Claimed,
    Nothing,
    Failed,
    /// Shutdown was requested first.
    Shutdown,
}

/// What the loop does once it asked the plane. `shutdown` is looked at once
/// more: a claim that arrives together with a shutdown starts nothing and is
/// left to its lease.
pub fn after_poll(poll: ClaimPoll, shutdown: bool) -> (s: ServeStep)
    ensures
        s == (match poll {
            ClaimPoll::Shutdown => ServeStep::Stop { drain: true },
            ClaimPoll::Failed => ServeStep::Fail,
            ClaimPoll::Nothing => ServeStep::Sleep,
            ClaimPoll::Claimed => if shutdown {
                ServeStep::Stop { drain: true }
            } else {
                ServeStep::Execute
            },
        }),
{
    match poll {
        ClaimPoll::Shutdown => ServeStep::Stop { drain: true },
        ClaimPoll::Failed => ServeStep::Fail,
        ClaimPoll::Nothing => ServeStep::Sleep,
        ClaimPoll::Claimed => if shutdown {
            ServeStep::Stop { drain: true }
        } else {
            ServeStep::Execute
        },
    }
}

/// What the loop does once it slept.
pub fn after_sleep(shutdown: bool) -> (s: ServeStep)
    ensures
        s == if shutdown {
            ServeStep::Stop { drain: true }
        } else {
            ServeStep::Again
        },
{
    if shutdown {
        ServeStep::Stop { drain: true }
    } else {
        ServeStep::Again
    }
}

/// What the loop does once a claim was executed.
pub fn after_execution(execution: Execution) -> (r: Result<ServeStep, PlaneIntakeError>)
    ensures
        match execution {
            Execution::Continue => r == Ok::<ServeStep, PlaneIntakeError>(ServeStep::Again),
            Execution::Shutdown => r == Ok::<ServeStep, PlaneIntakeError>(
                ServeStep::Stop { drain: false },
            ),
            Execution::GovernanceUnavailable => r matches Err(e) && source_error(
                e,
                "governance unavailable during run; plane serve exiting for replacement"@,
            ),
        },
{
    match execution {
        Execution::Continue => Ok(ServeStep::Again),
        Execution::Shutdown => Ok(ServeStep::Stop { drain: false }),
        Execution::GovernanceUnavailable => Err(
            source("governance unavailable during run; plane serve exiting for replacement"),
        ),
    }
}

/// What a worker's lifecycle learns of an error while the plane is asked.
pub fn observe_claim_error(error: &PlaneIntakeError) -> (n: LifecycleNote)
    ensures
        match *error {
            PlaneIntakeError::FenceLost(kind) => n matches LifecycleNote::FenceLost(k) && k@
                == kind@,
            PlaneIntakeError::Source(_) | PlaneIntakeError::Harness(_) => n is GovernanceLost,
            PlaneIntakeError::Mapping(_) => n is Nothing,
        },
{
    match error {
        PlaneIntakeError::FenceLost(kind) => LifecycleNote::FenceLost(kind.clone()),
        PlaneIntakeError::Source(_) | PlaneIntakeError::Harness(_) => {
            LifecycleNote::GovernanceLost
        },
        PlaneIntakeError::Mapping(_) => LifecycleNote::Nothing,
    }
}

/// No claim is asked for once shutdown was requested, once as many jobs were
/// taken as are permitted, or while the worker accepts none.
pub proof fn claims_are_gated(
    options: PlaneServeOptions,
    completed: u64,
    shutdown: bool,
    gate: Option<LifecycleGate>,
)
    requires
        loop_step(options, completed, shutdown, gate) == ServeStep::Claim,
    ensures
        !shutdown,
        options.max_jobs is Some ==> completed < options.max_jobs->0,
        gate is Some ==> gate->0.accepting,
{
}

/// The loop stops just where it is told to, all the jobs it is to do are done, or its host
/// drains; it claims wherever its host accepts work, or there is none to ask, and waits where
/// the host does neither.
pub proof fn loop_follows_its_host(
    options: PlaneServeOptions,
    completed: u64,
    shutdown: bool,
    gate: Option<LifecycleGate>,
)
    ensures
        ({
            let done = shutdown || (options.max_jobs is Some && completed >= options.max_jobs->0);
            let step = loop_step(options, completed, shutdown, gate);
            &&& done <==> step == ServeStep::Stop { drain: true }
            &&& !done && (gate is None || gate->0.accepting) <==> step == ServeStep::Claim
            &&& !done && gate is Some && !gate->0.accepting && gate->0.draining <==> step
                == ServeStep::Stop { drain: false }
            &&& !done && gate is Some && !gate->0.accepting && !gate->0.draining <==> step
                == ServeStep::Sleep
        }),
{
}

} // verus!
