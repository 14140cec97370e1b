//! Execution outcomes and the objective that tells which of them are crashes.

use vstd::prelude::*;

verus! {

/// How one run of the harness ended.
#[derive(Clone, Copy, Debug, PartialEq, Eq, Structural)]
pub enum ExitStatus {
    /// The harness returned.
    Normal,
    /// The harness raised a fault.
    Crashed,
    /// The harness ran longer than its time limit.
    TimedOut,
}

/// The outcome of one execution: its status and the coverage map as it stood
/// right after the run.
#[derive(Debug)]
pub struct ExecutionResult {
    /// How the run ended.
    pub status: ExitStatus,
    /// One counter per instrumented region, as the run left them.
    pub coverage: Vec<u8>,
}

/// Whether `status` meets the objective. A crash always does; a timeout does
/// only where the policy counts timeouts as crashes.
pub open spec fn counts_as_crash(status: ExitStatus, timeouts_are_crashes: bool) -> bool {
    status == ExitStatus::Crashed || (timeouts_are_crashes && status == ExitStatus::TimedOut)
}

/// The objective: decides whether an execution is a crash, whatever coverage
/// it showed.
#[derive(Clone, Copy, Debug)]
pub struct CrashObjective {
    timeouts_are_crashes: bool,
}

impl CrashObjective {
    /// An objective under the given policy on timeouts.
    pub fn new(timeouts_are_crashes: bool) -> (objective: CrashObjective)
        ensures
            objective.timeouts_are_crashes() == timeouts_are_crashes,
    {
        CrashObjective { timeouts_are_crashes }
    }

    /// Whether this objective counts timeouts as crashes.
    pub closed spec fn timeouts_are_crashes(&self) -> bool {
        self.timeouts_are_crashes
    }

    /// Whether `status` is a crash under this objective's policy.
    pub fn is_crash_status(&self, status: ExitStatus) -> (crash: bool)
        ensures
            crash == counts_as_crash(status, self.timeouts_are_crashes()),
    {
        match status {
            ExitStatus::Crashed => true,
            ExitStatus::TimedOut => self.timeouts_are_crashes,
            ExitStatus::Normal => false,
        }
    }

    /// Whether `result` is a crash under this objective's policy.
    pub fn is_crash(&self, result: &ExecutionResult) -> (crash: bool)
        ensures
            crash == counts_as_crash(result.status, self.timeouts_are_crashes()),
    {
        self.is_crash_status(result.status)
    }
}

} // verus!
