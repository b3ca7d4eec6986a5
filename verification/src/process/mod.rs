//! Process lifecycle: states, restart policy, health checks and the
//! decisions taken when a supervised process is observed to exit.

pub mod health;
pub mod restart;

pub use self::restart::RestartPolicy;
use self::restart::MAX_RETRIES;

use std::time::Instant;
use vstd::prelude::*;

use crate::text::to_owned_string;

verus! {

/// The lifecycle state of a managed process.
#[derive(Debug, PartialEq)]
pub enum ProcessState {
    Stopped,
    Starting,
    Running { pid: u32, started_at: Instant },
    Crashed { retries: u8, last_error: String },
    Attached,
}

/// What a supervisor observed of its child on a tick: still running, exited
/// with success, or exited with failure (a failed status query counts as a
/// failure).
#[derive(Debug, Clone, Copy, PartialEq, Eq)]
pub enum ExitObservation {
    StillRunning,
    ExitedOk,
    ExitedFailed,
}

/// What a supervisor does after a tick.
#[derive(Debug, PartialEq)]
pub enum TickStep {
    /// Nothing changed.
    Unchanged,
    /// The process exited normally: mark it stopped.
    Stop,
    /// The process crashed and may be retried: start it again.
    Restart,
    /// The process crashed and is not retried: enter this state.
    GiveUp(ProcessState),
}

/// The message recorded when a crashed process exhausted its retries.
pub open spec fn exhausted_message() -> Seq<char> {
    "Process exited with non-zero status"@
}

/// The message recorded when restarting a crashed process failed.
pub open spec fn restart_failed_message() -> Seq<char> {
    "Failed to restart process"@
}

/// Whether a state is `Running`.
pub open spec fn is_running_state(s: ProcessState) -> bool {
    s is Running
}

impl ProcessState {
    /// Whether this is the `Running` state.
    pub fn is_running(&self) -> (b: bool)
        ensures
            b == (*self is Running),
    {
        match self {
            ProcessState::Running { .. } => true,
            _ => false,
        }
    }

    /// Whether a (re)start is allowed from this state: `Stopped` or `Crashed`.
    pub fn can_start(&self) -> (b: bool)
        ensures
            b == (*self is Stopped || *self is Crashed),
    {
        match self {
            ProcessState::Stopped => true,
            ProcessState::Crashed { .. } => true,
            _ => false,
        }
    }
}

/// Decides what a supervisor does on a tick of a long-running (non-cron)
/// process. Only a process believed to be running, with a child attached,
/// is checked. A normal exit stops it; a failed exit records a crash, and
/// the policy decides between a restart and giving up.
pub fn plan_tick(
    running: bool,
    has_child: bool,
    observed: ExitObservation,
    policy: &mut RestartPolicy,
) -> (step: TickStep)
    requires
        running && has_child && observed == ExitObservation::ExitedFailed ==> old(policy).crashes()
            < 255,
    ensures
        !(running && has_child) ==> step == TickStep::Unchanged && *final(policy) == *old(policy),
        running && has_child && observed == ExitObservation::StillRunning ==> step
            == TickStep::Unchanged && *final(policy) == *old(policy),
        running && has_child && observed == ExitObservation::ExitedOk ==> step == TickStep::Stop
            && *final(policy) == *old(policy),
        running && has_child && observed == ExitObservation::ExitedFailed ==> {
            &&& final(policy).crashes() == old(policy).crashes() + 1
            &&& if final(policy).crashes() <= MAX_RETRIES {
                step == TickStep::Restart
            } else {
                step matches TickStep::GiveUp(ProcessState::Crashed { retries, last_error })
                    && retries == final(policy).crashes() && last_error@ == exhausted_message()
            }
        },
{
    if !(running && has_child) {
        return TickStep::Unchanged;
    }
    match observed {
        ExitObservation::StillRunning => TickStep::Unchanged,
        ExitObservation::ExitedOk => TickStep::Stop,
        ExitObservation::ExitedFailed => {
            if policy.record_crash() {
                TickStep::Restart
            } else {
                TickStep::GiveUp(
                    ProcessState::Crashed {
                        retries: policy.crash_count(),
                        last_error: to_owned_string("Process exited with non-zero status"),
                    },
                )
            }
        },
    }
}

/// The state a crashed process enters when its restart could not be
/// started.
pub fn restart_failed_state(policy: &RestartPolicy) -> (s: ProcessState)
    ensures
        s matches ProcessState::Crashed { retries, last_error } && retries == policy.crashes()
            && last_error@ == restart_failed_message(),
{
    ProcessState::Crashed {
        retries: policy.crash_count(),
        last_error: to_owned_string("Failed to restart process"),
    }
}

/// Decides a tick of a cron process: any exit (or a failed status query)
/// while it is believed running stops it, without restart. Returns whether
/// the process exited.
pub fn plan_tick_cron(running: bool, has_child: bool, observed: ExitObservation) -> (exited: bool)
    ensures
        exited == (running && has_child && observed != ExitObservation::StillRunning),
{
    running && has_child && match observed {
        ExitObservation::StillRunning => false,
        _ => true,
    }
}

} // verus!
