use xfuzz::objective::{CrashObjective, ExecutionResult, ExitStatus};

fn result(status: ExitStatus) -> ExecutionResult {
    ExecutionResult { status, coverage: vec![0, 1] }
}

#[test]
fn crash_is_a_crash_under_either_policy() {
    assert!(CrashObjective::new(false).is_crash(&result(ExitStatus::Crashed)));
    assert!(CrashObjective::new(true).is_crash(&result(ExitStatus::Crashed)));
}

#[test]
fn normal_is_never_a_crash() {
    assert!(!CrashObjective::new(false).is_crash(&result(ExitStatus::Normal)));
    assert!(!CrashObjective::new(true).is_crash(&result(ExitStatus::Normal)));
}

#[test]
fn timeout_is_a_crash_only_by_policy() {
    assert!(!CrashObjective::new(false).is_crash(&result(ExitStatus::TimedOut)));
    assert!(CrashObjective::new(true).is_crash(&result(ExitStatus::TimedOut)));
}

#[test]
fn status_alone_decides() {
    let objective = CrashObjective::new(false);
    assert!(objective.is_crash_status(ExitStatus::Crashed));
    assert!(!objective.is_crash_status(ExitStatus::TimedOut));
    assert!(!objective.is_crash_status(ExitStatus::Normal));
    let covered = ExecutionResult { status: ExitStatus::Normal, coverage: vec![255, 255] };
    assert!(!objective.is_crash(&covered));
    let bare = ExecutionResult { status: ExitStatus::Crashed, coverage: vec![] };
    assert!(objective.is_crash(&bare));
}
