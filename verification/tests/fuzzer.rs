use xfuzz::executor::Executor;
use xfuzz::fuzzer::{
    Action, Bootstrap, ConfigError, FuzzError, Fuzzer, Options, Outlook, Stats, StopReason,
    Verdict, SEED_COUNT, SEED_MAX_LEN,
};
use xfuzz::objective::{ExecutionResult, ExitStatus};

const MAP_LEN: usize = 16;

fn options() -> Options {
    Options {
        random_input: false,
        max_iters: None,
        corpus_input: None,
        corpus_output: None,
        continue_on_errors: false,
        save_errors: false,
        timeouts_are_crashes: false,
        report_every: 0,
    }
}

fn fuzzer(options: Options) -> Fuzzer {
    Fuzzer::new(options, MAP_LEN, 0x5eed).unwrap()
}

/// Counts each byte value modulo the map length; faults on the input `[0x00]`.
fn harness(input: &[u8], executor: &mut Executor) -> bool {
    for byte in input {
        executor.record(*byte as usize % MAP_LEN, 1);
    }
    input == [0u8]
}

fn execute(executor: &mut Executor, input: &[u8]) -> ExecutionResult {
    executor.begin();
    let faulted = harness(input, executor);
    executor.finish(faulted, 0)
}

fn submit(fuzzer: &mut Fuzzer, executor: &mut Executor, candidate: Vec<u8>) -> Verdict {
    assert_eq!(fuzzer.poll(), Outlook::Continue);
    fuzzer.schedule();
    let result = execute(executor, &candidate);
    fuzzer.stage(candidate);
    fuzzer.on_result(result)
}

fn drive(fuzzer: &mut Fuzzer, executor: &mut Executor, at_most: u64) -> Option<StopReason> {
    for _ in 0..at_most {
        match fuzzer.next_action().unwrap() {
            Action::Execute(candidate) => {
                let result = execute(executor, &candidate);
                fuzzer.on_result(result);
            }
            Action::Stop(reason) => return Some(reason),
        }
    }
    None
}

#[test]
fn zero_iterations_are_refused() {
    let made = Fuzzer::new(Options { max_iters: Some(0), ..options() }, MAP_LEN, 1);
    assert_eq!(made.err(), Some(ConfigError::ZeroIterations));
    assert!(Fuzzer::new(Options { max_iters: Some(1), ..options() }, MAP_LEN, 1).is_ok());
    assert!(Fuzzer::new(options(), MAP_LEN, 1).is_ok());
    assert!(Fuzzer::new(options(), 0, 1).is_ok());
}

#[test]
fn new_fuzzer_is_blank() {
    let fuzzer = fuzzer(Options { max_iters: Some(7), ..options() });
    assert_eq!(fuzzer.executions(), 0);
    assert_eq!(fuzzer.limit(), 7);
    assert!(fuzzer.corpus().is_empty());
    assert_eq!(fuzzer.crashes().len(), 0);
    assert_eq!(fuzzer.coverage().snapshot(), vec![0u8; MAP_LEN]);
    assert!(!fuzzer.is_awaiting());
    assert_eq!(fuzzer.settings().max_iters, Some(7));
    assert_eq!(
        fuzzer.stats(),
        Stats { executions: 0, coverage: 0, corpus_size: 0, crashes: 0 }
    );
}

#[test]
fn unlimited_run_counts_as_far_as_the_counter_goes() {
    assert_eq!(fuzzer(options()).limit(), u64::MAX);
}

#[test]
fn bootstrap_plan_follows_the_options() {
    let mut plain = fuzzer(options());
    assert_eq!(plain.bootstrap(), Bootstrap::Synthesize);
    let named = fuzzer(Options { corpus_input: Some("seeds".to_string()), ..options() });
    assert_eq!(named.bootstrap(), Bootstrap::LoadDirectory);
    plain.add_seed(&vec![1u8]);
    assert_eq!(plain.bootstrap(), Bootstrap::Ready);
    let mut seeded = fuzzer(Options { corpus_input: Some("seeds".to_string()), ..options() });
    seeded.add_seed(&vec![]);
    assert_eq!(seeded.bootstrap(), Bootstrap::Ready);
}

#[test]
fn empty_corpus_is_an_error() {
    let mut fuzzer = fuzzer(options());
    assert_eq!(fuzzer.poll(), Outlook::EmptyCorpus);
    assert_eq!(fuzzer.next_action().err(), Some(FuzzError::EmptyCorpus));
    assert_eq!(fuzzer.executions(), 0);
    assert!(!fuzzer.is_awaiting());
    fuzzer.load_seeds(&vec![]);
    assert_eq!(fuzzer.next_action().err(), Some(FuzzError::EmptyCorpus));
}

#[test]
fn random_seeds_fill_an_empty_corpus() {
    let mut fuzzer = fuzzer(Options { random_input: true, ..options() });
    assert_eq!(fuzzer.bootstrap(), Bootstrap::Synthesize);
    fuzzer.synthesize_seeds();
    assert_eq!(SEED_COUNT, 32);
    assert_eq!(SEED_MAX_LEN, 16384);
    assert_eq!(fuzzer.corpus().len(), 32);
    for index in 0..32 {
        let entry = fuzzer.corpus().entry(index).unwrap();
        assert!(entry.input.len() >= 1);
        assert!(entry.input.len() <= 16384);
        assert_eq!(entry.scheduled, 0);
    }
    let distinct: std::collections::BTreeSet<Vec<u8>> =
        fuzzer.corpus().export().into_iter().collect();
    assert!(distinct.len() > 1);
    assert_eq!(fuzzer.bootstrap(), Bootstrap::Ready);
    assert_eq!(fuzzer.poll(), Outlook::Continue);
    assert_eq!(fuzzer.executions(), 0);
    assert_eq!(fuzzer.coverage().snapshot(), vec![0u8; MAP_LEN]);
    assert!(fuzzer.settings().random_input);
}

#[test]
fn seed_file_is_kept_as_it_is() {
    let mut fuzzer = fuzzer(Options { corpus_input: Some("in".to_string()), ..options() });
    assert_eq!(fuzzer.bootstrap(), Bootstrap::LoadDirectory);
    let file = vec![0xdeu8, 0xad, 0xbe, 0xef];
    fuzzer.load_seeds(&vec![file.clone()]);
    assert_eq!(fuzzer.corpus().len(), 1);
    assert_eq!(fuzzer.corpus().input(0), Some(file.clone()));
    assert_eq!(fuzzer.coverage().snapshot(), vec![0u8; MAP_LEN]);
    let mut executor = Executor::new(MAP_LEN, None);
    assert_eq!(drive(&mut fuzzer, &mut executor, 200), None);
    assert_eq!(fuzzer.corpus().input(0), Some(file));
}

#[test]
fn seed_without_novel_coverage_is_kept() {
    let mut fuzzer = fuzzer(options());
    let mut executor = Executor::new(MAP_LEN, None);
    fuzzer.add_seed(&vec![1u8]);
    let verdict = submit(&mut fuzzer, &mut executor, vec![5u8, 5]);
    assert_eq!(verdict.kept, Some(1));
    assert_eq!(fuzzer.add_seed(&vec![5u8, 5]), 2);
    assert_eq!(fuzzer.add_seed(&vec![]), 3);
    assert_eq!(fuzzer.corpus().export(), vec![vec![1u8], vec![5u8, 5], vec![5u8, 5], vec![]]);
    let again = submit(&mut fuzzer, &mut executor, vec![5u8, 5]);
    assert_eq!(again.kept, None);
    assert_eq!(fuzzer.corpus().len(), 4);
}

#[test]
fn budget_of_one_hundred_ends_after_one_hundred_executions() {
    let mut fuzzer = fuzzer(Options { max_iters: Some(100), continue_on_errors: true, ..options() });
    let mut executor = Executor::new(MAP_LEN, None);
    fuzzer.synthesize_seeds();
    let mut executed = 0u64;
    let reason = loop {
        match fuzzer.next_action().unwrap() {
            Action::Execute(candidate) => {
                let result = execute(&mut executor, &candidate);
                fuzzer.on_result(result);
                executed += 1;
                assert!(executed <= 100);
            }
            Action::Stop(reason) => break reason,
        }
    };
    assert_eq!(reason, StopReason::BudgetReached);
    assert_eq!(executed, 100);
    assert_eq!(fuzzer.executions(), 100);
    assert_eq!(fuzzer.stats().executions, 100);
    assert!(fuzzer.corpus().len() >= 32);
    assert_eq!(fuzzer.poll(), Outlook::BudgetReached);
    assert_eq!(
        match fuzzer.next_action().unwrap() {
            Action::Stop(reason) => Some(reason),
            Action::Execute(_) => None,
        },
        Some(StopReason::BudgetReached)
    );
    assert_eq!(fuzzer.executions(), 100);
}

#[test]
fn budget_of_one_allows_one_execution() {
    let mut fuzzer = fuzzer(Options { max_iters: Some(1), ..options() });
    let mut executor = Executor::new(MAP_LEN, None);
    fuzzer.add_seed(&vec![1u8, 2]);
    assert_eq!(drive(&mut fuzzer, &mut executor, 10), Some(StopReason::BudgetReached));
    assert_eq!(fuzzer.executions(), 1);
}

#[test]
fn unlimited_run_goes_on() {
    let mut fuzzer = fuzzer(Options { continue_on_errors: true, ..options() });
    let mut executor = Executor::new(MAP_LEN, None);
    fuzzer.add_seed(&vec![1u8, 2, 3]);
    assert_eq!(drive(&mut fuzzer, &mut executor, 1500), None);
    assert_eq!(fuzzer.executions(), 1500);
    assert_eq!(fuzzer.poll(), Outlook::Continue);
}

#[test]
fn crash_is_stored_and_the_run_continues() {
    let mut fuzzer = fuzzer(Options {
        continue_on_errors: true,
        save_errors: true,
        ..options()
    });
    let mut executor = Executor::new(MAP_LEN, None);
    fuzzer.add_seed(&vec![1u8]);
    let calm = submit(&mut fuzzer, &mut executor, vec![1u8]);
    assert_eq!(calm.crash, None);
    assert!(!calm.persist);
    assert!(!calm.halt);
    let verdict = submit(&mut fuzzer, &mut executor, vec![0u8]);
    assert_eq!(verdict.crash, Some(0));
    assert!(verdict.persist);
    assert!(!verdict.halt);
    assert_eq!(fuzzer.crashes().len(), 1);
    let record = fuzzer.crashes().get(0).unwrap();
    assert_eq!(record.input, vec![0u8]);
    assert_eq!(record.status, ExitStatus::Crashed);
    assert_eq!(fuzzer.poll(), Outlook::Continue);
    let later = submit(&mut fuzzer, &mut executor, vec![0u8]);
    assert_eq!(later.crash, Some(1));
    assert_eq!(fuzzer.crashes().len(), 2);
    assert_eq!(fuzzer.executions(), 3);
    assert_eq!(drive(&mut fuzzer, &mut executor, 50), None);
    assert_eq!(fuzzer.executions(), 53);
}

#[test]
fn mutation_toward_the_crashing_input_fills_the_crash_store() {
    let mut fuzzer = fuzzer(Options {
        continue_on_errors: true,
        save_errors: true,
        ..options()
    });
    let mut executor = Executor::new(MAP_LEN, None);
    fuzzer.add_seed(&vec![1u8]);
    let mut zero_candidates = 0usize;
    for _ in 0..4000 {
        match fuzzer.next_action().unwrap() {
            Action::Execute(candidate) => {
                let hit = candidate == vec![0u8];
                let result = execute(&mut executor, &candidate);
                let verdict = fuzzer.on_result(result);
                assert_eq!(verdict.crash.is_some(), hit);
                assert_eq!(verdict.persist, hit);
                assert!(!verdict.halt);
                if hit {
                    zero_candidates += 1;
                }
            }
            Action::Stop(_) => panic!("the run must go on"),
        }
    }
    assert!(zero_candidates >= 1);
    assert_eq!(fuzzer.crashes().len(), zero_candidates);
    assert_eq!(fuzzer.executions(), 4000);
    for id in 0..fuzzer.crashes().len() {
        let record = fuzzer.crashes().get(id).unwrap();
        assert_eq!(record.input, vec![0u8]);
        assert_ne!(record.status, ExitStatus::Normal);
    }
}

#[test]
fn first_crash_ends_a_run_that_does_not_continue() {
    let mut fuzzer = fuzzer(Options { save_errors: true, ..options() });
    let mut executor = Executor::new(MAP_LEN, None);
    fuzzer.add_seed(&vec![1u8]);
    let verdict = submit(&mut fuzzer, &mut executor, vec![0u8]);
    assert_eq!(verdict.crash, Some(0));
    assert!(verdict.persist);
    assert!(verdict.halt);
    assert_eq!(fuzzer.crashes().len(), 1);
    assert_eq!(fuzzer.poll(), Outlook::Halted);
    for _ in 0..3 {
        match fuzzer.next_action().unwrap() {
            Action::Stop(reason) => assert_eq!(reason, StopReason::Fault),
            Action::Execute(_) => panic!("a halted run hands out nothing"),
        }
    }
    assert_eq!(fuzzer.executions(), 1);
    assert!(!fuzzer.is_awaiting());
}

#[test]
fn halt_comes_before_budget() {
    let mut fuzzer = fuzzer(Options { max_iters: Some(1), ..options() });
    let mut executor = Executor::new(MAP_LEN, None);
    fuzzer.add_seed(&vec![1u8]);
    let verdict = submit(&mut fuzzer, &mut executor, vec![0u8]);
    assert!(verdict.halt);
    assert_eq!(fuzzer.poll(), Outlook::Halted);
    assert_eq!(drive(&mut fuzzer, &mut executor, 5), Some(StopReason::Fault));
}

#[test]
fn crash_is_recorded_but_not_persisted_without_save_errors() {
    let mut fuzzer = fuzzer(Options { continue_on_errors: true, ..options() });
    let mut executor = Executor::new(MAP_LEN, None);
    fuzzer.add_seed(&vec![1u8]);
    let verdict = submit(&mut fuzzer, &mut executor, vec![0u8]);
    assert_eq!(verdict.crash, Some(0));
    assert!(!verdict.persist);
    assert_eq!(fuzzer.crashes().len(), 1);
}

#[test]
fn crash_with_new_coverage_enters_both_stores() {
    let mut fuzzer = fuzzer(Options { continue_on_errors: true, ..options() });
    let mut executor = Executor::new(MAP_LEN, None);
    fuzzer.add_seed(&vec![9u8]);
    let verdict = submit(&mut fuzzer, &mut executor, vec![0u8]);
    assert_eq!(verdict.crash, Some(0));
    assert_eq!(verdict.kept, Some(1));
    assert_eq!(fuzzer.corpus().input(1), Some(vec![0u8]));
    assert_eq!(fuzzer.crashes().get(0).unwrap().input, vec![0u8]);
    let again = submit(&mut fuzzer, &mut executor, vec![0u8]);
    assert_eq!(again.crash, Some(1));
    assert_eq!(again.kept, None);
    assert_eq!(fuzzer.corpus().len(), 2);
}

#[test]
fn normal_runs_never_reach_the_crash_store() {
    let mut fuzzer = fuzzer(Options { timeouts_are_crashes: true, continue_on_errors: true, ..options() });
    let mut executor = Executor::new(MAP_LEN, Some(5));
    fuzzer.add_seed(&vec![1u8]);
    for step in 0u64..30 {
        fuzzer.schedule();
        fuzzer.stage(vec![step as u8]);
        executor.begin();
        executor.record(step as usize % MAP_LEN, 1);
        let result = executor.finish(step % 7 == 3, step);
        let status = result.status;
        let verdict = fuzzer.on_result(result);
        assert_eq!(verdict.crash.is_some(), status != ExitStatus::Normal);
    }
    assert_eq!(fuzzer.crashes().len(), 24 + 1);
    for id in 0..fuzzer.crashes().len() {
        assert_ne!(fuzzer.crashes().get(id).unwrap().status, ExitStatus::Normal);
    }
}

#[test]
fn timeout_halts_only_where_it_counts_as_crash() {
    let mut executor = Executor::new(MAP_LEN, Some(5));
    let mut lenient = fuzzer(options());
    lenient.add_seed(&vec![1u8]);
    lenient.schedule();
    lenient.stage(vec![2u8]);
    executor.begin();
    let slow = executor.finish(false, 6);
    assert_eq!(slow.status, ExitStatus::TimedOut);
    let verdict = lenient.on_result(slow);
    assert_eq!(verdict.crash, None);
    assert!(!verdict.halt);
    assert_eq!(lenient.crashes().len(), 0);
    let mut strict = fuzzer(Options { timeouts_are_crashes: true, ..options() });
    strict.add_seed(&vec![1u8]);
    strict.schedule();
    strict.stage(vec![2u8]);
    executor.begin();
    let verdict = strict.on_result(executor.finish(false, 6));
    assert_eq!(verdict.crash, Some(0));
    assert!(verdict.halt);
    assert_eq!(strict.crashes().get(0).unwrap().status, ExitStatus::TimedOut);
}

#[test]
fn corpus_grows_exactly_on_novel_coverage() {
    let mut fuzzer = fuzzer(options());
    let mut executor = Executor::new(MAP_LEN, None);
    fuzzer.add_seed(&vec![]);
    let candidates: Vec<Vec<u8>> = vec![
        vec![1],
        vec![1],
        vec![2],
        vec![1, 2],
        vec![1, 1],
        vec![17],
        vec![3, 3, 3],
        vec![3, 3],
        vec![],
    ];
    let expected = vec![true, false, true, false, true, false, true, false, false];
    let mut kept = Vec::new();
    for candidate in &candidates {
        let before = fuzzer.corpus().len();
        let verdict = submit(&mut fuzzer, &mut executor, candidate.clone());
        kept.push(verdict.kept.is_some());
        if let Some(index) = verdict.kept {
            assert_eq!(index, before);
            assert_eq!(fuzzer.corpus().input(index), Some(candidate.clone()));
        } else {
            assert_eq!(fuzzer.corpus().len(), before);
        }
    }
    assert_eq!(kept, expected);
    assert_eq!(
        fuzzer.corpus().export(),
        vec![vec![], vec![1u8], vec![2u8], vec![1u8, 1], vec![3u8, 3, 3]]
    );
    let mut global = vec![0u8; MAP_LEN];
    global[1] = 2;
    global[2] = 1;
    global[3] = 3;
    assert_eq!(fuzzer.coverage().snapshot(), global);
    assert_eq!(fuzzer.covered_points(), vec![1usize, 2, 3]);
}

#[test]
fn global_coverage_only_grows_during_a_run() {
    let mut fuzzer = fuzzer(Options { continue_on_errors: true, ..options() });
    let mut executor = Executor::new(MAP_LEN, None);
    fuzzer.synthesize_seeds();
    let mut before = fuzzer.coverage().snapshot();
    for _ in 0..300 {
        drive(&mut fuzzer, &mut executor, 1);
        let after = fuzzer.coverage().snapshot();
        assert!(after.iter().zip(before.iter()).all(|(a, b)| a >= b));
        before = after;
    }
}

#[test]
fn seeds_are_scheduled_in_turn() {
    let mut fuzzer = fuzzer(options());
    fuzzer.load_seeds(&vec![vec![1u8], vec![2u8], vec![3u8]]);
    let mut picks = Vec::new();
    for _ in 0..7 {
        picks.push(fuzzer.schedule());
    }
    assert_eq!(picks, vec![0usize, 1, 2, 0, 1, 2, 0]);
    let counts: Vec<usize> =
        (0..3).map(|i| fuzzer.corpus().entry(i).unwrap().scheduled).collect();
    assert_eq!(counts, vec![3usize, 2, 2]);
}

#[test]
fn next_action_schedules_and_stages() {
    let mut fuzzer = fuzzer(options());
    let mut executor = Executor::new(MAP_LEN, None);
    fuzzer.load_seeds(&vec![vec![1u8, 2, 3], vec![4u8; 8]]);
    for round in 0..6usize {
        assert!(!fuzzer.is_awaiting());
        let candidate = match fuzzer.next_action().unwrap() {
            Action::Execute(candidate) => candidate,
            Action::Stop(_) => panic!("the run must go on"),
        };
        assert!(fuzzer.is_awaiting());
        drop(candidate);
        executor.begin();
        fuzzer.on_result(executor.finish(false, 0));
        assert_eq!(fuzzer.executions(), round as u64 + 1);
    }
    assert_eq!(fuzzer.corpus().entry(0).unwrap().scheduled, 3);
    assert_eq!(fuzzer.corpus().entry(1).unwrap().scheduled, 3);
    assert_eq!(fuzzer.corpus().len(), 2);
}

#[test]
fn reports_come_at_the_interval() {
    let mut fuzzer = fuzzer(Options { report_every: 3, continue_on_errors: true, ..options() });
    let mut executor = Executor::new(MAP_LEN, None);
    fuzzer.add_seed(&vec![1u8]);
    let mut reports = Vec::new();
    for step in 1u8..=7 {
        let verdict = submit(&mut fuzzer, &mut executor, vec![step]);
        reports.push(verdict.report);
    }
    assert_eq!(
        reports,
        vec![
            None,
            None,
            Some(Stats { executions: 3, coverage: 3, corpus_size: 4, crashes: 0 }),
            None,
            None,
            Some(Stats { executions: 6, coverage: 6, corpus_size: 7, crashes: 0 }),
            None,
        ]
    );
}

#[test]
fn no_reports_without_an_interval() {
    let mut fuzzer = fuzzer(options());
    let mut executor = Executor::new(MAP_LEN, None);
    fuzzer.add_seed(&vec![1u8]);
    for step in 1u8..=4 {
        assert_eq!(submit(&mut fuzzer, &mut executor, vec![step]).report, None);
    }
    let mut every = Fuzzer::new(Options { report_every: 1, ..options() }, MAP_LEN, 1).unwrap();
    every.add_seed(&vec![1u8]);
    assert!(submit(&mut every, &mut executor, vec![1u8]).report.is_some());
}

#[test]
fn stats_count_what_happened() {
    let mut fuzzer = fuzzer(Options { continue_on_errors: true, ..options() });
    let mut executor = Executor::new(MAP_LEN, None);
    fuzzer.load_seeds(&vec![vec![1u8], vec![2u8]]);
    submit(&mut fuzzer, &mut executor, vec![0u8]);
    submit(&mut fuzzer, &mut executor, vec![0u8]);
    submit(&mut fuzzer, &mut executor, vec![4u8, 5]);
    submit(&mut fuzzer, &mut executor, vec![4u8]);
    assert_eq!(
        fuzzer.stats(),
        Stats { executions: 4, coverage: 3, corpus_size: 4, crashes: 2 }
    );
}

#[test]
fn export_follows_the_output_option() {
    let mut silent = fuzzer(options());
    silent.add_seed(&vec![1u8]);
    assert_eq!(silent.export_corpus(), None);
    let mut writing = fuzzer(Options { corpus_output: Some("out".to_string()), ..options() });
    assert_eq!(writing.export_corpus(), Some(vec![]));
    writing.load_seeds(&vec![vec![1u8], vec![], vec![2u8, 3]]);
    assert_eq!(writing.export_corpus(), Some(vec![vec![1u8], vec![], vec![2u8, 3]]));
}

#[test]
fn exported_corpus_imports_to_the_same_inputs() {
    let mut first = fuzzer(Options {
        corpus_output: Some("dir".to_string()),
        max_iters: Some(400),
        continue_on_errors: true,
        ..options()
    });
    let mut executor = Executor::new(MAP_LEN, None);
    first.load_seeds(&vec![vec![1u8, 2, 3, 4], vec![200u8; 9]]);
    assert_eq!(drive(&mut first, &mut executor, 1000), Some(StopReason::BudgetReached));
    let exported = first.export_corpus().unwrap();
    assert!(exported.len() > 2);

    let mut second = fuzzer(Options { corpus_input: Some("dir".to_string()), ..options() });
    assert_eq!(second.bootstrap(), Bootstrap::LoadDirectory);
    second.load_seeds(&exported);
    assert_eq!(second.corpus().export(), exported);

    let mut shuffled = exported.clone();
    shuffled.reverse();
    let mut third = fuzzer(Options { corpus_input: Some("dir".to_string()), ..options() });
    third.load_seeds(&shuffled);
    let left: std::collections::BTreeSet<Vec<u8>> = third.corpus().export().into_iter().collect();
    let right: std::collections::BTreeSet<Vec<u8>> = exported.into_iter().collect();
    assert_eq!(left, right);
}

#[test]
fn same_seed_same_run() {
    let run = |rng_seed: u64| -> (Vec<Vec<u8>>, Vec<u8>) {
        let mut fuzzer =
            Fuzzer::new(Options { max_iters: Some(200), continue_on_errors: true, ..options() }, MAP_LEN, rng_seed)
                .unwrap();
        let mut executor = Executor::new(MAP_LEN, None);
        fuzzer.synthesize_seeds();
        drive(&mut fuzzer, &mut executor, 1000);
        (fuzzer.corpus().export(), fuzzer.coverage().snapshot())
    };
    assert_eq!(run(7), run(7));
    assert_ne!(run(7).0, run(8).0);
}

#[test]
fn random_input_option_executes_fresh_random_bytes() {
    let mut fuzzer = fuzzer(Options { random_input: true, continue_on_errors: true, ..options() });
    let mut executor = Executor::new(MAP_LEN, None);
    fuzzer.add_seed(&vec![7u8; 40000]);
    let mut lengths = std::collections::BTreeSet::new();
    for _ in 0..200 {
        match fuzzer.next_action().unwrap() {
            Action::Execute(candidate) => {
                assert!(candidate.len() >= 1);
                assert!(candidate.len() < 16384);
                lengths.insert(candidate.len());
                let result = execute(&mut executor, &candidate);
                fuzzer.on_result(result);
            }
            Action::Stop(_) => panic!("the run must go on"),
        }
    }
    assert!(lengths.len() > 50);
    let scheduled: usize =
        (0..fuzzer.corpus().len()).map(|i| fuzzer.corpus().entry(i).unwrap().scheduled).sum();
    assert_eq!(scheduled, 200);
    assert_eq!(fuzzer.corpus().input(0), Some(vec![7u8; 40000]));
    for index in 1..fuzzer.corpus().len() {
        assert!(fuzzer.corpus().input(index).unwrap().len() < 16384);
    }
}

#[test]
fn mutated_candidates_are_drawn_from_the_scheduled_entry() {
    let mut fuzzer = fuzzer(Options { continue_on_errors: true, ..options() });
    fuzzer.add_seed(&vec![7u8; 40000]);
    let mut derived = 0usize;
    for _ in 0..50 {
        match fuzzer.next_action().unwrap() {
            Action::Execute(candidate) => {
                if candidate.len() > 16384 && candidate.iter().filter(|b| **b == 7).count() > 8192 {
                    derived += 1;
                }
                fuzzer.on_result(ExecutionResult {
                    status: ExitStatus::Normal,
                    coverage: vec![0u8; MAP_LEN],
                });
            }
            Action::Stop(_) => panic!("the run must go on"),
        }
    }
    assert!(derived >= 1);
    assert_eq!(fuzzer.corpus().len(), 1);
}
