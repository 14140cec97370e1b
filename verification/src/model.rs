//! The orchestrator as a state machine over mathematical values: its
//! state, its invariant, and what each step does to the state.

use crate::corpus::{inputs_of, one_more};
use crate::coverage::{covered_points, covers, lemma_merged_covers, merged, novel, zeros};
use crate::fuzzer::{Bootstrap, Options, Outlook, Stats, SEED_COUNT, SEED_MAX_LEN};
use crate::objective::{counts_as_crash, ExitStatus};
use crate::replay::{
    accepted, corpus_after, crashes_after, executions_after, global_after, inserted_at,
    lemma_corpus_entries_were_interesting, lemma_crashes_never_normal,
    lemma_global_never_decreases, seeding, Event,
};
use crate::scheduler::next_index;
use vstd::prelude::*;

verus! {

/// The state of the orchestrator as mathematics.
#[verifier::ext_equal]
pub struct FuzzerView {
    /// Everything that happened so far, oldest first.
    pub log: Seq<Event>,
    /// The accumulated global coverage map.
    pub global: Seq<u8>,
    /// The corpus: input and scheduled count of each entry.
    pub entries: Seq<(Seq<u8>, nat)>,
    /// The crash store: input and status of each record.
    pub crashes: Seq<(Seq<u8>, ExitStatus)>,
    /// The number of executions observed.
    pub executions: nat,
    /// The candidate handed out for execution whose outcome is awaited.
    pub pending: Option<Seq<u8>>,
    /// Whether the run has ended on a fault.
    pub halted: bool,
    /// The entry that the scheduler handed out last.
    pub cursor: Option<nat>,
}

/// The number of executions a run may make. A run without a limit stops
/// where its counter could count no further.
pub open spec fn budget(options: Options) -> nat {
    match options.max_iters {
        Some(limit) => limit as nat,
        None => u64::MAX as nat,
    }
}

/// The state of a new orchestrator over maps of `map_len` counters.
pub open spec fn initial(map_len: nat) -> FuzzerView {
    FuzzerView {
        log: Seq::empty(),
        global: zeros(map_len),
        entries: Seq::empty(),
        crashes: Seq::empty(),
        executions: 0,
        pending: None,
        halted: false,
        cursor: None,
    }
}

/// The invariant of the orchestrator. Its stores are what replaying its log
/// gives; it has not made more executions than its budget allows; it awaits
/// an outcome only while it may still run; and it has halted exactly when it
/// does not continue on errors and a crash was recorded.
pub open spec fn well_formed(view: FuzzerView, options: Options) -> bool {
    &&& options.max_iters != Some(0u64)
    &&& view.global == global_after(view.global.len(), view.log)
    &&& inputs_of(view.entries) == corpus_after(view.global.len(), view.log)
    &&& view.crashes == crashes_after(options.timeouts_are_crashes, view.log)
    &&& view.executions == executions_after(view.log)
    &&& view.executions <= budget(options)
    &&& view.pending is Some ==> view.executions < budget(options) && !view.halted
    &&& view.halted == (!options.continue_on_errors && view.crashes.len() > 0)
    &&& view.cursor is Some ==> view.cursor->Some_0 < view.entries.len()
}

/// What the bootstrap has to do: nothing where the corpus has entries;
/// otherwise load the seed directory where one is named, and make random
/// seeds where none is.
pub open spec fn bootstrap_plan(view: FuzzerView, options: Options) -> Bootstrap {
    if view.entries.len() > 0 {
        Bootstrap::Ready
    } else if options.corpus_input is Some {
        Bootstrap::LoadDirectory
    } else {
        Bootstrap::Synthesize
    }
}

/// Whether the loop may go on. A halt comes before an exhausted budget, and
/// both before an empty corpus.
pub open spec fn outlook(view: FuzzerView, options: Options) -> Outlook {
    if view.halted {
        Outlook::Halted
    } else if view.executions >= budget(options) {
        Outlook::BudgetReached
    } else if view.entries.len() == 0 {
        Outlook::EmptyCorpus
    } else {
        Outlook::Continue
    }
}

/// The entries that `inputs` make when added as seeds: none was scheduled yet.
pub open spec fn fresh_entries(inputs: Seq<Seq<u8>>) -> Seq<(Seq<u8>, nat)> {
    inputs.map_values(|input: Seq<u8>| (input, 0nat))
}

/// The state after `inputs` were added as seeds, in order. Seeds bypass the
/// feedback: the global map is not consulted and does not change.
pub open spec fn seeded(view: FuzzerView, inputs: Seq<Seq<u8>>) -> FuzzerView {
    FuzzerView {
        log: view.log + seeding(inputs),
        entries: view.entries + fresh_entries(inputs),
        ..view
    }
}

/// The state after the scheduler has handed out the next entry: the cursor
/// stands on it and its scheduled count has gone up.
pub open spec fn scheduled(view: FuzzerView) -> FuzzerView {
    let index = next_index(view.cursor, view.entries.len()) as int;
    FuzzerView {
        cursor: Some(index as nat),
        entries: view.entries.update(
            index,
            (view.entries[index].0, one_more(view.entries[index].1)),
        ),
        ..view
    }
}

/// The state after `candidate` was handed out for execution.
pub open spec fn staged(view: FuzzerView, candidate: Seq<u8>) -> FuzzerView {
    FuzzerView { pending: Some(candidate), ..view }
}

/// The state after the awaited outcome has arrived. The candidate enters the
/// crash store if the status met the objective, and the corpus if the
/// coverage was novel against the global map; the two are decided
/// independently. The global map takes the maximum with the coverage, the
/// execution is counted, and the run halts on a crash unless it continues on
/// errors.
pub open spec fn resolved(
    view: FuzzerView,
    options: Options,
    status: ExitStatus,
    coverage: Seq<u8>,
) -> FuzzerView {
    let candidate = view.pending->Some_0;
    let crash = counts_as_crash(status, options.timeouts_are_crashes);
    FuzzerView {
        log: view.log.push(Event::Executed { candidate, status, coverage }),
        global: merged(view.global, coverage),
        entries: if novel(view.global, coverage) {
            view.entries.push((candidate, 0nat))
        } else {
            view.entries
        },
        crashes: if crash {
            view.crashes.push((candidate, status))
        } else {
            view.crashes
        },
        executions: view.executions + 1,
        pending: None,
        halted: view.halted || (crash && !options.continue_on_errors),
        cursor: view.cursor,
    }
}

/// What is known of a candidate that the loop makes. A random input has at
/// least one byte and is shorter than the seed bound; of a mutated one
/// nothing is known.
pub open spec fn candidate_fits(options: Options, candidate: Seq<u8>) -> bool {
    options.random_input ==> 1 <= candidate.len() < SEED_MAX_LEN
}

/// The statistics of a state.
pub open spec fn stats_of(view: FuzzerView) -> Stats {
    Stats {
        executions: view.executions as u64,
        coverage: covered_points(view.global).len() as usize,
        corpus_size: view.entries.len() as usize,
        crashes: view.crashes.len() as usize,
    }
}

/// Whether a report is due after `executions` executions.
pub open spec fn report_due(executions: nat, report_every: u64) -> bool {
    report_every > 0 && executions % (report_every as nat) == 0
}

/// Whether `seeds` could have been made by the bootstrap: the fixed number
/// of them, each of at least one byte and shorter than the fixed bound.
pub open spec fn synthesized(seeds: Seq<Seq<u8>>) -> bool {
    &&& seeds.len() == SEED_COUNT
    &&& forall|i: int| 0 <= i < seeds.len() ==> 1 <= (#[trigger] seeds[i]).len() < SEED_MAX_LEN
}

/// Seeding keeps the invariant.
pub proof fn lemma_seeded_keeps_invariant(view: FuzzerView, options: Options, inputs: Seq<Seq<u8>>)
    requires
        well_formed(view, options),
    ensures
        well_formed(seeded(view, inputs), options),
        seeded(view, Seq::empty()) == view,
        forall|input: Seq<u8>|
            seeded(seeded(view, inputs), seq![input]) == #[trigger] seeded(
                view,
                inputs.push(input),
            ),
    decreases inputs.len(),
{
    assert(seeded(view, Seq::empty()) =~= view);
    assert forall|input: Seq<u8>|
        seeded(seeded(view, inputs), seq![input]) == #[trigger] seeded(
            view,
            inputs.push(input),
        ) by {
        assert(seeded(seeded(view, inputs), seq![input]) =~= seeded(view, inputs.push(input)));
    }
    if inputs.len() > 0 {
        let fewer = inputs.drop_last();
        let last = inputs.last();
        lemma_seeded_keeps_invariant(view, options, fewer);
        let before = seeded(view, fewer);
        let after = seeded(view, inputs);
        assert(after.log =~= before.log.push(Event::Seeded { input: last }));
        assert(after.log.drop_last() =~= before.log);
        assert(after.entries =~= before.entries.push((last, 0nat)));
        assert(inputs_of(after.entries) =~= inputs_of(before.entries).push(last));
    } else {
        assert(seeded(view, inputs) =~= view);
    }
}

/// Scheduling and staging keep the invariant wherever the loop may go on.
pub proof fn lemma_dispatch_keeps_invariant(
    view: FuzzerView,
    options: Options,
    candidate: Seq<u8>,
)
    requires
        well_formed(view, options),
        outlook(view, options) == Outlook::Continue,
        view.pending is None,
    ensures
        well_formed(scheduled(view), options),
        well_formed(staged(view, candidate), options),
        well_formed(staged(scheduled(view), candidate), options),
        inputs_of(scheduled(view).entries) == inputs_of(view.entries),
        outlook(scheduled(view), options) == Outlook::Continue,
{
    assert(inputs_of(scheduled(view).entries) =~= inputs_of(view.entries));
}

/// Taking in an outcome keeps the invariant; the global map does not
/// decrease, and the corpus grows exactly when the coverage was novel.
pub proof fn lemma_resolved_keeps_invariant(
    view: FuzzerView,
    options: Options,
    status: ExitStatus,
    coverage: Seq<u8>,
)
    requires
        well_formed(view, options),
        view.pending is Some,
    ensures
        well_formed(resolved(view, options, status, coverage), options),
        covers(resolved(view, options, status, coverage).global, view.global),
        resolved(view, options, status, coverage).entries.len() == view.entries.len() + if novel(
            view.global,
            coverage,
        ) {
            1int
        } else {
            0int
        },
{
    let after = resolved(view, options, status, coverage);
    let candidate = view.pending->Some_0;
    lemma_merged_covers(view.global, coverage);
    assert(after.log.drop_last() =~= view.log);
    if novel(view.global, coverage) {
        assert(inputs_of(after.entries) =~= inputs_of(view.entries).push(candidate));
    }
}

/// What the invariant gives of every state the orchestrator reaches: the
/// global map covers what it was after any earlier part of the run; every
/// corpus entry came in as a seed or as a candidate whose coverage was novel
/// against the global map at that step; and no record of the crash store
/// comes from an execution that ended normally.
pub proof fn lemma_reached_states(view: FuzzerView, options: Options)
    requires
        well_formed(view, options),
    ensures
        forall|k: int|
            0 <= k <= view.log.len() ==> covers(
                view.global,
                #[trigger] global_after(view.global.len(), view.log.take(k)),
            ),
        forall|j: int|
            0 <= j < view.entries.len() ==> {
                let k = #[trigger] inserted_at(view.global.len(), view.log, j);
                &&& 0 <= k < view.log.len()
                &&& match view.log[k] {
                    Event::Seeded { input } => input == view.entries[j].0,
                    Event::Executed { candidate, .. } => candidate == view.entries[j].0
                        && accepted(view.global.len(), view.log, k),
                }
            },
        forall|i: int|
            0 <= i < view.crashes.len() ==> (#[trigger] view.crashes[i]).1 != ExitStatus::Normal,
        view.crashes.len() <= view.executions,
{
    let map_len = view.global.len();
    assert forall|k: int| 0 <= k <= view.log.len() implies covers(
        view.global,
        #[trigger] global_after(map_len, view.log.take(k)),
    ) by {
        lemma_global_never_decreases(map_len, view.log, k);
    }
    assert forall|j: int| 0 <= j < view.entries.len() implies {
        let k = #[trigger] inserted_at(map_len, view.log, j);
        &&& 0 <= k < view.log.len()
        &&& match view.log[k] {
            Event::Seeded { input } => input == view.entries[j].0,
            Event::Executed { candidate, .. } => candidate == view.entries[j].0 && accepted(
                map_len,
                view.log,
                k,
            ),
        }
    } by {
        assert(inputs_of(view.entries).len() == view.entries.len());
        assert(inputs_of(view.entries)[j] == view.entries[j].0);
        lemma_corpus_entries_were_interesting(map_len, view.log, j);
    }
    lemma_crashes_never_normal(options.timeouts_are_crashes, view.log);
}

} // verus!
