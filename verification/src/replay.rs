//! The run as mathematics: a log of what happened, and what the engine's
//! stores must hold after it. The engine keeps its stores equal to these
//! functions of its log, so whatever is proved here of the functions holds
//! of every state the engine reaches.

use crate::coverage::{covers, lemma_covers_transitive, lemma_merged_covers, merged, novel, zeros};
use crate::objective::{counts_as_crash, ExitStatus};
use vstd::prelude::*;

verus! {

/// One step of a run.
pub enum Event {
    /// An initial seed was put into the corpus without asking the feedback.
    Seeded { input: Seq<u8> },
    /// A candidate was executed and its outcome observed.
    Executed { candidate: Seq<u8>, status: ExitStatus, coverage: Seq<u8> },
}

/// The global coverage map after `log`, over maps of `map_len` counters.
pub open spec fn global_after(map_len: nat, log: Seq<Event>) -> Seq<u8>
    decreases log.len(),
{
    if log.len() == 0 {
        zeros(map_len)
    } else {
        let before = global_after(map_len, log.drop_last());
        match log.last() {
            Event::Executed { coverage, .. } => merged(before, coverage),
            Event::Seeded { .. } => before,
        }
    }
}

/// Whether step `k` of `log` was an execution that the feedback judged
/// interesting against the global map as it stood right before that step.
pub open spec fn accepted(map_len: nat, log: Seq<Event>, k: int) -> bool {
    &&& 0 <= k < log.len()
    &&& log[k] is Executed
    &&& novel(global_after(map_len, log.take(k)), log[k]->coverage)
}

/// The inputs of the corpus after `log`, in insertion order: every seed, and
/// every candidate whose execution was accepted.
pub open spec fn corpus_after(map_len: nat, log: Seq<Event>) -> Seq<Seq<u8>>
    decreases log.len(),
{
    if log.len() == 0 {
        Seq::empty()
    } else {
        let before = corpus_after(map_len, log.drop_last());
        match log.last() {
            Event::Seeded { input } => before.push(input),
            Event::Executed { candidate, coverage, .. } => if novel(
                global_after(map_len, log.drop_last()),
                coverage,
            ) {
                before.push(candidate)
            } else {
                before
            },
        }
    }
}

/// The crash store after `log`: every executed candidate whose status met
/// the objective, with that status.
pub open spec fn crashes_after(timeouts_are_crashes: bool, log: Seq<Event>) -> Seq<
    (Seq<u8>, ExitStatus),
>
    decreases log.len(),
{
    if log.len() == 0 {
        Seq::empty()
    } else {
        let before = crashes_after(timeouts_are_crashes, log.drop_last());
        match log.last() {
            Event::Executed { candidate, status, .. } => if counts_as_crash(
                status,
                timeouts_are_crashes,
            ) {
                before.push((candidate, status))
            } else {
                before
            },
            Event::Seeded { .. } => before,
        }
    }
}

/// The number of executions in `log`.
pub open spec fn executions_after(log: Seq<Event>) -> nat
    decreases log.len(),
{
    if log.len() == 0 {
        0
    } else {
        executions_after(log.drop_last()) + if log.last() is Executed {
            1nat
        } else {
            0nat
        }
    }
}

/// The log that seeds each of `inputs`, in order.
pub open spec fn seeding(inputs: Seq<Seq<u8>>) -> Seq<Event> {
    inputs.map_values(|input: Seq<u8>| Event::Seeded { input })
}

/// The global map always has the length it began with.
pub proof fn lemma_global_length(map_len: nat, log: Seq<Event>)
    ensures
        global_after(map_len, log).len() == map_len,
    decreases log.len(),
{
    if log.len() > 0 {
        lemma_global_length(map_len, log.drop_last());
    }
}

/// The global coverage map never decreases: after any further steps it
/// covers what it was after the first `k`.
pub proof fn lemma_global_never_decreases(map_len: nat, log: Seq<Event>, k: int)
    requires
        0 <= k <= log.len(),
    ensures
        covers(global_after(map_len, log), global_after(map_len, log.take(k))),
    decreases log.len(),
{
    lemma_global_length(map_len, log);
    if k == log.len() {
        assert(log.take(k) =~= log);
        lemma_covers_transitive(global_after(map_len, log), global_after(map_len, log), global_after(map_len, log));
    } else {
        let shorter = log.drop_last();
        assert(shorter.take(k) =~= log.take(k));
        lemma_global_never_decreases(map_len, shorter, k);
        match log.last() {
            Event::Executed { coverage, .. } => {
                lemma_merged_covers(global_after(map_len, shorter), coverage);
            },
            Event::Seeded { .. } => {
                lemma_global_length(map_len, shorter);
                lemma_covers_transitive(
                    global_after(map_len, shorter),
                    global_after(map_len, shorter),
                    global_after(map_len, shorter),
                );
            },
        }
        lemma_covers_transitive(
            global_after(map_len, log),
            global_after(map_len, shorter),
            global_after(map_len, log.take(k)),
        );
    }
}

/// What one step does, recomputed from the log alone: a seed is appended to
/// the corpus; an executed candidate is appended exactly when it was
/// accepted at that step, and the global map takes the maximum with its
/// coverage. Replaying a log therefore repeats every accept and reject.
pub proof fn lemma_replay_step(map_len: nat, log: Seq<Event>, k: int)
    requires
        0 <= k < log.len(),
    ensures
        log[k] is Seeded ==> corpus_after(map_len, log.take(k + 1)) == corpus_after(
            map_len,
            log.take(k),
        ).push(log[k]->input) && global_after(map_len, log.take(k + 1)) == global_after(
            map_len,
            log.take(k),
        ),
        log[k] is Executed ==> global_after(map_len, log.take(k + 1)) == merged(
            global_after(map_len, log.take(k)),
            log[k]->coverage,
        ),
        accepted(map_len, log, k) ==> corpus_after(map_len, log.take(k + 1)) == corpus_after(
            map_len,
            log.take(k),
        ).push(log[k]->candidate),
        log[k] is Executed && !accepted(map_len, log, k) ==> corpus_after(map_len, log.take(k + 1))
            == corpus_after(map_len, log.take(k)),
{
    let upto = log.take(k + 1);
    assert(upto.drop_last() =~= log.take(k));
    assert(upto.last() == log[k]);
}

/// The step of `log` that put entry `j` into the corpus.
pub open spec fn inserted_at(map_len: nat, log: Seq<Event>, j: int) -> int
    decreases log.len(),
{
    if log.len() == 0 {
        -1
    } else if j < corpus_after(map_len, log.drop_last()).len() {
        inserted_at(map_len, log.drop_last(), j)
    } else {
        log.len() - 1
    }
}

/// Every entry of the corpus came in at some step of the log, and at that
/// step it was either a seed or a candidate that the feedback judged
/// interesting against the global map as it stood then.
pub proof fn lemma_corpus_entries_were_interesting(map_len: nat, log: Seq<Event>, j: int)
    requires
        0 <= j < corpus_after(map_len, log).len(),
    ensures
        0 <= inserted_at(map_len, log, j) < log.len(),
        match log[inserted_at(map_len, log, j)] {
            Event::Seeded { input } => input == corpus_after(map_len, log)[j],
            Event::Executed { candidate, .. } => candidate == corpus_after(map_len, log)[j]
                && accepted(map_len, log, inserted_at(map_len, log, j)),
        },
    decreases log.len(),
{
    let shorter = log.drop_last();
    if j < corpus_after(map_len, shorter).len() {
        lemma_corpus_entries_were_interesting(map_len, shorter, j);
        let k = inserted_at(map_len, shorter, j);
        assert(shorter.take(k) =~= log.take(k));
        assert(shorter[k] == log[k]);
    } else {
        assert(log.take(log.len() - 1) =~= shorter);
    }
}

/// The crash store never holds an input whose execution ended normally:
/// every record carries a status that met the objective.
pub proof fn lemma_crashes_never_normal(timeouts_are_crashes: bool, log: Seq<Event>)
    ensures
        crashes_after(timeouts_are_crashes, log).len() <= executions_after(log),
        forall|i: int|
            0 <= i < crashes_after(timeouts_are_crashes, log).len() ==> counts_as_crash(
                (#[trigger] crashes_after(timeouts_are_crashes, log)[i]).1,
                timeouts_are_crashes,
            ) && crashes_after(timeouts_are_crashes, log)[i].1 != ExitStatus::Normal,
    decreases log.len(),
{
    if log.len() > 0 {
        lemma_crashes_never_normal(timeouts_are_crashes, log.drop_last());
    }
}

/// A log of seeds alone fills the corpus with exactly those seeds, in order,
/// and leaves the global map at its baseline.
pub proof fn lemma_seeding(map_len: nat, inputs: Seq<Seq<u8>>)
    ensures
        corpus_after(map_len, seeding(inputs)) == inputs,
        global_after(map_len, seeding(inputs)) == zeros(map_len),
        executions_after(seeding(inputs)) == 0,
    decreases inputs.len(),
{
    if inputs.len() > 0 {
        lemma_seeding(map_len, inputs.drop_last());
        assert(seeding(inputs).drop_last() =~= seeding(inputs.drop_last()));
        assert(corpus_after(map_len, seeding(inputs)) =~= inputs);
    } else {
        assert(corpus_after(map_len, seeding(inputs)) =~= inputs);
    }
}

/// Exporting a corpus and importing the exported inputs into a fresh run
/// gives back the same set of inputs, in whatever order and however often
/// the store in between hands them over.
pub proof fn lemma_export_import_round_trip(
    map_len: nat,
    exported: Seq<Seq<u8>>,
    imported: Seq<Seq<u8>>,
)
    requires
        imported.to_set() == exported.to_set(),
    ensures
        corpus_after(map_len, seeding(imported)).to_set() == exported.to_set(),
        corpus_after(map_len, seeding(exported)) == exported,
{
    lemma_seeding(map_len, imported);
    lemma_seeding(map_len, exported);
}

} // verus!
