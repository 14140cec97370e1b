//! The orchestrator. It owns the corpus, the global coverage map, the crash
//! store and the scheduler, and takes the loop's decisions: whether to go on,
//! which entry to mutate, and what to keep of an execution's outcome. It
//! never runs the harness; the caller does, between `next_action` and
//! `on_result`.

use crate::corpus::{inputs_of, views_of, Corpus};
use crate::coverage::{as_ints, covered_points, covers, novel, CoverageMap};
use crate::crashes::CrashStore;
use crate::feedback::MaxMapFeedback;
use crate::model::{
    bootstrap_plan, budget, candidate_fits, initial, lemma_dispatch_keeps_invariant,
    lemma_resolved_keeps_invariant, lemma_seeded_keeps_invariant, outlook, report_due, resolved,
    scheduled, seeded, staged, stats_of, synthesized, well_formed, FuzzerView,
};
use crate::objective::{counts_as_crash, CrashObjective, ExecutionResult};
use crate::replay::{corpus_after, Event};
use crate::scheduler::{next_index, QueueScheduler};
use vstd::prelude::*;

verus! {

/// How many random seeds are made where no seed directory is given.
pub const SEED_COUNT: usize = 32;

/// The length that no random seed reaches.
pub const SEED_MAX_LEN: usize = 16384;

/// The options of a run.
#[derive(Debug)]
pub struct Options {
    /// Execute fully random inputs in place of mutated corpus entries.
    pub random_input: bool,
    /// The number of executions after which the run ends; `None` for a run
    /// that goes on until it is stopped from outside.
    pub max_iters: Option<u64>,
    /// Where the initial seeds are read from; `None` to make random seeds.
    pub corpus_input: Option<String>,
    /// Where the corpus is written when the run ends; `None` to skip that.
    pub corpus_output: Option<String>,
    /// Go on after an execution that met the objective.
    pub continue_on_errors: bool,
    /// Write the inputs that met the objective to durable storage.
    pub save_errors: bool,
    /// Count a timeout as a crash.
    pub timeouts_are_crashes: bool,
    /// Report statistics after every this many executions; zero for never.
    pub report_every: u64,
}

/// Why a set of options is refused.
#[derive(Clone, Copy, Debug, PartialEq, Eq, Structural)]
pub enum ConfigError {
    /// The run was asked to end after no execution at all.
    ZeroIterations,
}

/// Why the loop cannot take its next step.
#[derive(Clone, Copy, Debug, PartialEq, Eq, Structural)]
pub enum FuzzError {
    /// There is no entry to mutate: the corpus was never seeded.
    EmptyCorpus,
}

/// What must be done before the loop starts.
#[derive(Clone, Copy, Debug, PartialEq, Eq, Structural)]
pub enum Bootstrap {
    /// The corpus already holds entries.
    Ready,
    /// Read every file of the seed directory and add it as a seed.
    LoadDirectory,
    /// Make random seeds.
    Synthesize,
}

/// Whether the loop may take another step, and if not, why.
#[derive(Clone, Copy, Debug, PartialEq, Eq, Structural)]
pub enum Outlook {
    /// Another candidate may be executed.
    Continue,
    /// The budget of executions is used up.
    BudgetReached,
    /// An execution met the objective and the run does not continue on errors.
    Halted,
    /// The corpus is empty.
    EmptyCorpus,
}

/// Why the loop has ended.
#[derive(Clone, Copy, Debug, PartialEq, Eq, Structural)]
pub enum StopReason {
    /// The budget of executions is used up.
    BudgetReached,
    /// An execution met the objective and the run does not continue on errors.
    Fault,
}

/// What the caller is to do next.
#[derive(Debug)]
pub enum Action {
    /// Execute this candidate and hand the outcome to `on_result`.
    Execute(Vec<u8>),
    /// Leave the loop.
    Stop(StopReason),
}

/// A statistics snapshot for the monitor.
#[derive(Clone, Copy, Debug, PartialEq, Eq, Structural)]
pub struct Stats {
    /// Executions so far.
    pub executions: u64,
    /// Regions covered so far.
    pub coverage: usize,
    /// Entries in the corpus.
    pub corpus_size: usize,
    /// Records in the crash store.
    pub crashes: usize,
}

/// What became of one execution.
#[derive(Debug)]
pub struct Verdict {
    /// The sequence number under which the candidate entered the crash
    /// store, if its execution met the objective.
    pub crash: Option<usize>,
    /// Whether the caller is to write the candidate to durable storage.
    pub persist: bool,
    /// The index under which the candidate entered the corpus, if its
    /// coverage was interesting.
    pub kept: Option<usize>,
    /// Whether the run ends here.
    pub halt: bool,
    /// The statistics to report now, if a report is due.
    pub report: Option<Stats>,
}

/// The orchestrator.
pub struct Fuzzer {
    options: Options,
    corpus: Corpus,
    scheduler: QueueScheduler,
    feedback: MaxMapFeedback,
    crashes: CrashStore,
    executions: u64,
    pending: Option<Vec<u8>>,
    halted: bool,
    log: Ghost<Seq<Event>>,
}

impl View for Fuzzer {
    type V = FuzzerView;

    closed spec fn view(&self) -> FuzzerView {
        FuzzerView {
            log: self.log@,
            global: self.feedback.global(),
            entries: self.corpus@,
            crashes: self.crashes@,
            executions: self.executions as nat,
            pending: match self.pending {
                Some(candidate) => Some(candidate@),
                None => None,
            },
            halted: self.halted,
            cursor: self.scheduler@,
        }
    }
}

impl Fuzzer {
    /// The options this orchestrator was made with.
    pub closed spec fn options(&self) -> Options {
        self.options
    }

    /// Whether this orchestrator is in a state that its own steps lead to.
    /// Every orchestrator made by `new` is, and every step keeps it so.
    pub open spec fn wf(&self) -> bool {
        well_formed(self@, self.options())
    }

    /// An orchestrator over coverage maps of `map_len` counters, with an
    /// empty corpus and a generator seeded with `rng_seed`. A budget of zero
    /// executions is refused.
    pub fn new(options: Options, map_len: usize, rng_seed: u64) -> (made: Result<
        Fuzzer,
        ConfigError,
    >)
        ensures
            made is Err <==> options.max_iters == Some(0u64),
            made is Err ==> made->Err_0 == ConfigError::ZeroIterations,
            made is Ok ==> made->Ok_0@ == initial(map_len as nat) && made->Ok_0.options()
                == options && made->Ok_0.wf(),
    {
        match options.max_iters {
            Some(limit) => {
                if limit == 0 {
                    return Err(ConfigError::ZeroIterations);
                }
            },
            None => {},
        }
        let fuzzer = Fuzzer {
            options,
            corpus: Corpus::new(rng_seed),
            scheduler: QueueScheduler::new(),
            feedback: MaxMapFeedback::new(map_len),
            crashes: CrashStore::new(),
            executions: 0,
            pending: None,
            halted: false,
            log: Ghost(Seq::empty()),
        };
        assert(fuzzer@ =~= initial(map_len as nat));
        assert(inputs_of(fuzzer@.entries) =~= corpus_after(map_len as nat, fuzzer@.log));
        Ok(fuzzer)
    }

    /// The options, to read.
    pub fn settings(&self) -> (options: &Options)
        ensures
            *options == self.options(),
    {
        &self.options
    }

    /// What the bootstrap has to do before the loop starts.
    pub fn bootstrap(&self) -> (plan: Bootstrap)
        ensures
            plan == bootstrap_plan(self@, self.options()),
    {
        if !self.corpus.is_empty() {
            Bootstrap::Ready
        } else if self.options.corpus_input.is_some() {
            Bootstrap::LoadDirectory
        } else {
            Bootstrap::Synthesize
        }
    }

    /// Adds `input` to the corpus as a seed and returns its index. The
    /// feedback is not asked: the seed is kept whatever its coverage would be.
    pub fn add_seed(&mut self, input: &Vec<u8>) -> (index: usize)
        requires
            old(self).wf(),
        ensures
            final(self).wf(),
            final(self).options() == old(self).options(),
            final(self)@ == seeded(old(self)@, seq![input@]),
            index == old(self)@.entries.len(),
    {
        proof {
            lemma_seeded_keeps_invariant(self@, self.options(), seq![input@]);
        }
        let index = self.corpus.add(input);
        proof {
            self.log@ = self.log@.push(Event::Seeded { input: input@ });
        }
        assert(self@ =~= seeded(old(self)@, seq![input@]));
        index
    }

    /// Adds every input of `files` as a seed, in order.
    pub fn load_seeds(&mut self, files: &Vec<Vec<u8>>)
        requires
            old(self).wf(),
        ensures
            final(self).wf(),
            final(self).options() == old(self).options(),
            final(self)@ == seeded(old(self)@, views_of(files@)),
    {
        let mut i: usize = 0;
        proof {
            lemma_seeded_keeps_invariant(self@, self.options(), Seq::empty());
            assert(views_of(files@).take(0) =~= Seq::<Seq<u8>>::empty());
        }
        while i < files.len()
            invariant
                i <= files.len(),
                self.wf(),
                old(self).wf(),
                self.options() == old(self).options(),
                self@ == seeded(old(self)@, views_of(files@).take(i as int)),
            decreases files.len() - i,
        {
            proof {
                lemma_seeded_keeps_invariant(
                    old(self)@,
                    old(self).options(),
                    views_of(files@).take(i as int),
                );
                assert(views_of(files@).take(i as int).push(files@[i as int]@) =~= views_of(
                    files@,
                ).take(i + 1));
            }
            self.add_seed(&files[i]);
            i += 1;
        }
        assert(views_of(files@).take(files@.len() as int) =~= views_of(files@));
    }

    /// Makes the fixed number of random seeds, each of at least one byte and
    /// shorter than the fixed bound, and adds them to the corpus.
    pub fn synthesize_seeds(&mut self)
        requires
            old(self).wf(),
        ensures
            final(self).wf(),
            final(self).options() == old(self).options(),
            exists|seeds: Seq<Seq<u8>>|
                #[trigger] synthesized(seeds) && final(self)@ == seeded(old(self)@, seeds),
            final(self)@.entries.len() == old(self)@.entries.len() + SEED_COUNT,
    {
        let ghost mut seeds: Seq<Seq<u8>> = Seq::empty();
        let mut made: usize = 0;
        proof {
            lemma_seeded_keeps_invariant(self@, self.options(), Seq::empty());
        }
        while made < SEED_COUNT
            invariant
                made <= SEED_COUNT,
                self.wf(),
                old(self).wf(),
                self.options() == old(self).options(),
                seeds.len() == made,
                forall|i: int| 0 <= i < seeds.len() ==> 1 <= (#[trigger] seeds[i]).len() < SEED_MAX_LEN,
                self@ == seeded(old(self)@, seeds),
            decreases SEED_COUNT - made,
        {
            let bytes = self.corpus.random_input(SEED_MAX_LEN);
            proof {
                lemma_seeded_keeps_invariant(old(self)@, old(self).options(), seeds);
            }
            self.add_seed(&bytes);
            proof {
                seeds = seeds.push(bytes@);
            }
            made += 1;
        }
        assert(synthesized(seeds));
    }

    /// Whether the loop may take another step.
    pub fn poll(&self) -> (state: Outlook)
        ensures
            state == outlook(self@, self.options()),
    {
        if self.halted {
            Outlook::Halted
        } else if self.executions >= self.limit() {
            Outlook::BudgetReached
        } else if self.corpus.is_empty() {
            Outlook::EmptyCorpus
        } else {
            Outlook::Continue
        }
    }

    /// The budget of executions.
    pub fn limit(&self) -> (limit: u64)
        ensures
            limit == budget(self.options()),
    {
        match self.options.max_iters {
            Some(limit) => limit,
            None => u64::MAX,
        }
    }

    /// Lets the scheduler hand out the next entry, in queue order, and
    /// returns its index.
    pub fn schedule(&mut self) -> (index: usize)
        requires
            old(self).wf(),
            outlook(old(self)@, old(self).options()) == Outlook::Continue,
            old(self)@.pending is None,
        ensures
            final(self).wf(),
            final(self).options() == old(self).options(),
            final(self)@ == scheduled(old(self)@),
            index == next_index(old(self)@.cursor, old(self)@.entries.len()),
            index < old(self)@.entries.len(),
    {
        proof {
            lemma_dispatch_keeps_invariant(self@, self.options(), Seq::empty());
        }
        let count = self.corpus.len();
        let index = self.scheduler.next(count);
        self.corpus.mark_scheduled(index);
        assert(self@ =~= scheduled(old(self)@));
        index
    }

    /// Takes `candidate` as the input whose execution comes next. Its
    /// outcome is then owed to `on_result`.
    pub fn stage(&mut self, candidate: Vec<u8>)
        requires
            old(self).wf(),
            outlook(old(self)@, old(self).options()) == Outlook::Continue,
            old(self)@.pending is None,
        ensures
            final(self).wf(),
            final(self).options() == old(self).options(),
            final(self)@ == staged(old(self)@, candidate@),
    {
        self.pending = Some(candidate);
        assert(self@ =~= staged(old(self)@, candidate@));
    }

    /// One turn of the loop up to the execution. Where the loop may go on,
    /// the scheduler hands out the next entry and a candidate is made: by the
    /// mutation stage from that entry, or, where the options ask for random
    /// input, afresh from the generator. The candidate is staged and
    /// returned. Where the run has halted or its budget is used up, the
    /// answer is to stop, and where the corpus is empty it is an error; in
    /// these cases nothing changes.
    pub fn next_action(&mut self) -> (action: Result<Action, FuzzError>)
        requires
            old(self).wf(),
            old(self)@.pending is None,
        ensures
            final(self).wf(),
            final(self).options() == old(self).options(),
            match outlook(old(self)@, old(self).options()) {
                Outlook::Halted => action == Ok::<Action, FuzzError>(
                    Action::Stop(StopReason::Fault),
                ) && final(self)@ == old(self)@,
                Outlook::BudgetReached => action == Ok::<Action, FuzzError>(
                    Action::Stop(StopReason::BudgetReached),
                ) && final(self)@ == old(self)@,
                Outlook::EmptyCorpus => action == Err::<Action, FuzzError>(
                    FuzzError::EmptyCorpus,
                ) && final(self)@ == old(self)@,
                Outlook::Continue => action is Ok && action->Ok_0 is Execute && final(self)@
                    == staged(scheduled(old(self)@), action->Ok_0->Execute_0@) && candidate_fits(
                    old(self).options(),
                    action->Ok_0->Execute_0@,
                ),
            },
    {
        match self.poll() {
            Outlook::Halted => Ok(Action::Stop(StopReason::Fault)),
            Outlook::BudgetReached => Ok(Action::Stop(StopReason::BudgetReached)),
            Outlook::EmptyCorpus => Err(FuzzError::EmptyCorpus),
            Outlook::Continue => {
                let index = self.schedule();
                let candidate = if self.options.random_input {
                    self.corpus.random_input(SEED_MAX_LEN)
                } else {
                    let seed = self.corpus.input(index).unwrap();
                    self.corpus.mutate(&seed)
                };
                let handed = candidate.clone();
                assert(handed@ =~= candidate@);
                proof {
                    lemma_dispatch_keeps_invariant(
                        old(self)@,
                        old(self).options(),
                        candidate@,
                    );
                }
                self.stage(candidate);
                Ok(Action::Execute(handed))
            },
        }
    }

    /// Takes in the outcome of the staged candidate's execution. The
    /// objective and the feedback judge it independently: on a crash the
    /// candidate enters the crash store, and on novel coverage it enters the
    /// corpus and the global map grows. The execution is counted. The
    /// verdict says what was done, whether the candidate is to be written to
    /// durable storage, whether the run ends here, and which statistics to
    /// report, if a report is due.
    pub fn on_result(&mut self, result: ExecutionResult) -> (verdict: Verdict)
        requires
            old(self).wf(),
            old(self)@.pending is Some,
            result.coverage@.len() == old(self)@.global.len(),
        ensures
            final(self).wf(),
            final(self).options() == old(self).options(),
            final(self)@ == resolved(
                old(self)@,
                old(self).options(),
                result.status,
                result.coverage@,
            ),
            covers(final(self)@.global, old(self)@.global),
            verdict.crash == if counts_as_crash(
                result.status,
                old(self).options().timeouts_are_crashes,
            ) {
                Some(old(self)@.crashes.len() as usize)
            } else {
                None
            },
            verdict.persist == (verdict.crash is Some && old(self).options().save_errors),
            verdict.kept == if novel(old(self)@.global, result.coverage@) {
                Some(old(self)@.entries.len() as usize)
            } else {
                None
            },
            verdict.halt == final(self)@.halted,
            verdict.halt == (verdict.crash is Some && !old(self).options().continue_on_errors),
            verdict.report == if report_due(
                final(self)@.executions,
                old(self).options().report_every,
            ) {
                Some(stats_of(final(self)@))
            } else {
                None
            },
    {
        proof {
            lemma_resolved_keeps_invariant(
                self@,
                self.options(),
                result.status,
                result.coverage@,
            );
        }
        let candidate = self.pending.take().unwrap();
        let objective = CrashObjective::new(self.options.timeouts_are_crashes);
        let crashed = objective.is_crash(&result);
        let interesting = self.feedback.is_interesting(&result.coverage);
        let kept = if interesting {
            Some(self.corpus.add(&candidate))
        } else {
            None
        };
        proof {
            self.log@ = self.log@.push(
                Event::Executed {
                    candidate: candidate@,
                    status: result.status,
                    coverage: result.coverage@,
                },
            );
        }
        let crash = if crashed {
            if !self.options.continue_on_errors {
                self.halted = true;
            }
            self.crashes.record(candidate, result.status)
        } else {
            None
        };
        self.executions = self.executions + 1;
        assert(self@ =~= resolved(
            old(self)@,
            old(self).options(),
            result.status,
            result.coverage@,
        ));
        let due = self.options.report_every > 0 && self.executions % self.options.report_every
            == 0;
        let report = if due {
            Some(self.stats())
        } else {
            None
        };
        Verdict {
            crash,
            persist: crashed && self.options.save_errors,
            kept,
            halt: self.halted,
            report,
        }
    }

    /// The statistics of the run so far.
    pub fn stats(&self) -> (stats: Stats)
        ensures
            stats == stats_of(self@),
    {
        let points = self.feedback.map().covered();
        assert(as_ints(points@).len() == points@.len());
        Stats {
            executions: self.executions,
            coverage: points.len(),
            corpus_size: self.corpus.len(),
            crashes: self.crashes.len(),
        }
    }

    /// The regions covered so far, in increasing order.
    pub fn covered_points(&self) -> (points: Vec<usize>)
        ensures
            as_ints(points@) == covered_points(self@.global),
    {
        self.feedback.map().covered()
    }

    /// The inputs to write when the run ends: the whole corpus, in order,
    /// where an output path was given, and nothing where none was.
    pub fn export_corpus(&self) -> (exported: Option<Vec<Vec<u8>>>)
        ensures
            exported is Some <==> self.options().corpus_output is Some,
            exported is Some ==> views_of(exported->Some_0@) == inputs_of(self@.entries),
    {
        if self.options.corpus_output.is_some() {
            Some(self.corpus.export())
        } else {
            None
        }
    }

    /// The corpus, to read.
    pub fn corpus(&self) -> (corpus: &Corpus)
        ensures
            corpus@ == self@.entries,
    {
        &self.corpus
    }

    /// The crash store, to read.
    pub fn crashes(&self) -> (crashes: &CrashStore)
        ensures
            crashes@ == self@.crashes,
    {
        &self.crashes
    }

    /// The global coverage map, to read.
    pub fn coverage(&self) -> (map: &CoverageMap)
        ensures
            map@ == self@.global,
    {
        self.feedback.map()
    }

    /// The number of executions observed so far.
    pub fn executions(&self) -> (count: u64)
        ensures
            count == self@.executions,
    {
        self.executions
    }

    /// Whether a candidate is out for execution.
    pub fn is_awaiting(&self) -> (awaiting: bool)
        ensures
            awaiting == (self@.pending is Some),
    {
        self.pending.is_some()
    }
}

} // verus!
