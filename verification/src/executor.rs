//! The bookkeeping of one execution: reset the coverage map, let the harness
//! report what it reached, then classify how the run ended and take the
//! snapshot. Running the harness itself, and surviving its faults, is the
//! caller's part; the executor is told what happened.

use crate::coverage::{bumped, zeros, CoverageMap};
use crate::objective::{ExecutionResult, ExitStatus};
use vstd::prelude::*;

verus! {

/// What an executor holds, as mathematics: the local coverage map and
/// whether a run is in flight.
pub struct ExecutorView {
    pub map: Seq<u8>,
    pub running: bool,
}

/// One report of the harness: the region reached and by how much to raise
/// its counter.
pub type Hit = (int, u8);

/// The state right after a run has begun: the map is back at its baseline.
pub open spec fn started(before: ExecutorView) -> ExecutorView {
    ExecutorView { map: zeros(before.map.len()), running: true }
}

/// The state after the harness has reported one hit.
pub open spec fn recorded(before: ExecutorView, index: int, count: u8) -> ExecutorView {
    ExecutorView { map: bumped(before.map, index, count), running: before.running }
}

/// The state after the harness has reported the hits of `trace`, in order.
pub open spec fn traced(before: ExecutorView, trace: Seq<Hit>) -> ExecutorView
    decreases trace.len(),
{
    if trace.len() == 0 {
        before
    } else {
        recorded(traced(before, trace.drop_last()), trace.last().0, trace.last().1)
    }
}

/// The state after a run has ended: the map keeps what the run left in it.
pub open spec fn stopped(before: ExecutorView) -> ExecutorView {
    ExecutorView { map: before.map, running: false }
}

/// How a run is classified. A fault is a crash; otherwise a run that took
/// longer than the limit, where there is one, timed out.
pub open spec fn classify(faulted: bool, elapsed_ms: u64, limit_ms: Option<u64>) -> ExitStatus {
    if faulted {
        ExitStatus::Crashed
    } else if limit_ms is Some && elapsed_ms > limit_ms->Some_0 {
        ExitStatus::TimedOut
    } else {
        ExitStatus::Normal
    }
}

/// Reports never change the length of the map.
pub proof fn lemma_traced_keeps_length(before: ExecutorView, trace: Seq<Hit>)
    ensures
        traced(before, trace).map.len() == before.map.len(),
        traced(before, trace).running == before.running,
    decreases trace.len(),
{
    if trace.len() > 0 {
        lemma_traced_keeps_length(before, trace.drop_last());
    }
}

/// Coverage is attributable to one execution alone: what a run leaves in the
/// map depends on the map's length and on what the harness reported, not on
/// what the map held before. So two executors of the same size that see the
/// same reports end with the same map, and running again with the same
/// reports on what a first run left reproduces the first run's map.
pub proof fn lemma_execution_starts_from_baseline(
    first: ExecutorView,
    second: ExecutorView,
    trace: Seq<Hit>,
)
    requires
        first.map.len() == second.map.len(),
    ensures
        traced(started(first), trace).map == traced(started(second), trace).map,
        traced(started(stopped(traced(started(first), trace))), trace).map == traced(
            started(first),
            trace,
        ).map,
{
    assert(started(first) == started(second));
    lemma_traced_keeps_length(started(first), trace);
    let left = stopped(traced(started(first), trace));
    assert(started(left) == started(first));
}

/// The executor: owns the local coverage map and walks each execution
/// through its states, from idle over running back to idle.
pub struct Executor {
    map: CoverageMap,
    running: bool,
    limit_ms: Option<u64>,
}

impl View for Executor {
    type V = ExecutorView;

    closed spec fn view(&self) -> ExecutorView {
        ExecutorView { map: self.map@, running: self.running }
    }
}

impl Executor {
    /// The longest a run may take, in milliseconds, if runs are limited.
    pub closed spec fn limit(&self) -> Option<u64> {
        self.limit_ms
    }

    /// An idle executor over a map of `map_len` zeroed counters.
    pub fn new(map_len: usize, limit_ms: Option<u64>) -> (executor: Executor)
        ensures
            executor@ == (ExecutorView { map: zeros(map_len as nat), running: false }),
            executor.limit() == limit_ms,
    {
        Executor { map: CoverageMap::new(map_len), running: false, limit_ms }
    }

    /// Whether a run is in flight.
    pub fn is_running(&self) -> (running: bool)
        ensures
            running == self@.running,
    {
        self.running
    }

    /// The time limit per run, for the caller's timer.
    pub fn time_limit(&self) -> (limit: Option<u64>)
        ensures
            limit == self.limit(),
    {
        self.limit_ms
    }

    /// The number of counters in the map.
    pub fn map_len(&self) -> (n: usize)
        ensures
            n == self@.map.len(),
    {
        self.map.len()
    }

    /// Begins a run: the coverage map is reset to all zero, so that whatever
    /// it holds afterwards comes from this run alone.
    pub fn begin(&mut self)
        requires
            !old(self)@.running,
        ensures
            final(self)@ == started(old(self)@),
            final(self).limit() == old(self).limit(),
    {
        self.map.reset();
        self.running = true;
    }

    /// Takes one report of the running harness: the counter of region
    /// `index` rises by `count`, stopping at 255. Returns whether `index`
    /// names a region of the map; if not, the map is unchanged.
    pub fn record(&mut self, index: usize, count: u8) -> (inside: bool)
        requires
            old(self)@.running,
        ensures
            final(self)@ == recorded(old(self)@, index as int, count),
            final(self).limit() == old(self).limit(),
            inside == (index < old(self)@.map.len()),
    {
        self.map.hit(index, count)
    }

    /// Ends the run. `faulted` says whether the harness raised a fault,
    /// `elapsed_ms` how long it ran. The result pairs the classification
    /// with a snapshot of the map; the map itself keeps its contents until
    /// the next run begins.
    pub fn finish(&mut self, faulted: bool, elapsed_ms: u64) -> (result: ExecutionResult)
        requires
            old(self)@.running,
        ensures
            final(self)@ == stopped(old(self)@),
            final(self).limit() == old(self).limit(),
            result.status == classify(faulted, elapsed_ms, old(self).limit()),
            result.coverage@ == old(self)@.map,
    {
        let status = if faulted {
            ExitStatus::Crashed
        } else {
            match self.limit_ms {
                Some(limit) => if elapsed_ms > limit {
                    ExitStatus::TimedOut
                } else {
                    ExitStatus::Normal
                },
                None => ExitStatus::Normal,
            }
        };
        self.running = false;
        ExecutionResult { status, coverage: self.map.snapshot() }
    }

    /// The local coverage map, to read between runs.
    pub fn coverage(&self) -> (map: &CoverageMap)
        ensures
            map@ == self@.map,
    {
        &self.map
    }
}

} // verus!
