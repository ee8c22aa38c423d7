use teemux::policy::{
    aborts, cause_message, diagnosed_indices, diagnoses, evaluate, exit_code, FailureCause, Mode,
    RunResult, SinkOutcome, WriteResult,
};

fn failure(is_pipe: bool) -> SinkOutcome {
    SinkOutcome { is_pipe, result: WriteResult::Failure(FailureCause::WriteError) }
}

fn success(is_pipe: bool) -> SinkOutcome {
    SinkOutcome { is_pipe, result: WriteResult::Success }
}

#[test]
fn policy_table_warn() {
    assert!(diagnoses(Mode::Warn, false));
    assert!(diagnoses(Mode::Warn, true));
    assert!(!aborts(Mode::Warn, false));
    assert!(!aborts(Mode::Warn, true));
}

#[test]
fn policy_table_warn_nopipe() {
    assert!(diagnoses(Mode::WarnNopipe, false));
    assert!(!diagnoses(Mode::WarnNopipe, true));
    assert!(!aborts(Mode::WarnNopipe, false));
    assert!(!aborts(Mode::WarnNopipe, true));
}

#[test]
fn policy_table_exit() {
    assert!(diagnoses(Mode::Exit, false));
    assert!(diagnoses(Mode::Exit, true));
    assert!(aborts(Mode::Exit, false));
    assert!(aborts(Mode::Exit, true));
}

#[test]
fn policy_table_exit_nopipe() {
    assert!(diagnoses(Mode::ExitNopipe, false));
    assert!(!diagnoses(Mode::ExitNopipe, true));
    assert!(aborts(Mode::ExitNopipe, false));
    assert!(!aborts(Mode::ExitNopipe, true));
}

#[test]
fn default_mode_is_warn_nopipe() {
    assert_eq!(Mode::default_mode(), Mode::WarnNopipe);
}

#[test]
fn evaluate_all_success_completes() {
    for mode in [Mode::Warn, Mode::WarnNopipe, Mode::Exit, Mode::ExitNopipe] {
        let outcomes = vec![success(true), success(false), success(false)];
        assert_eq!(evaluate(mode, &outcomes), RunResult::Completed);
    }
}

#[test]
fn evaluate_injected_failure_per_mode() {
    // One simulated failing sink per mode x pipe-classification combination.
    for (mode, is_pipe, should_abort) in [
        (Mode::Warn, false, false),
        (Mode::Warn, true, false),
        (Mode::WarnNopipe, false, false),
        (Mode::WarnNopipe, true, false),
        (Mode::Exit, false, true),
        (Mode::Exit, true, true),
        (Mode::ExitNopipe, false, true),
        (Mode::ExitNopipe, true, false),
    ] {
        let outcomes = vec![success(false), failure(is_pipe)];
        let result = evaluate(mode, &outcomes);
        if should_abort {
            assert_eq!(result, RunResult::FailedFast { index: 1 });
            assert_eq!(exit_code(&result), 1);
        } else {
            assert_eq!(result, RunResult::Completed);
            assert_eq!(exit_code(&result), 0);
        }
    }
}

#[test]
fn evaluate_reports_first_abort_worthy_failure() {
    let outcomes = vec![success(false), failure(false), success(false), failure(false)];
    assert_eq!(evaluate(Mode::Exit, &outcomes), RunResult::FailedFast { index: 1 });
}

#[test]
fn evaluate_skips_non_abort_worthy_pipe_failure() {
    let outcomes = vec![failure(true), failure(false)];
    assert_eq!(evaluate(Mode::ExitNopipe, &outcomes), RunResult::FailedFast { index: 1 });
}

#[test]
fn evaluate_is_order_insensitive() {
    let a = vec![failure(true), success(false), failure(false)];
    let b = vec![failure(false), failure(true), success(false)];
    for mode in [Mode::Warn, Mode::WarnNopipe, Mode::Exit, Mode::ExitNopipe] {
        let ra = evaluate(mode, &a);
        let rb = evaluate(mode, &b);
        assert_eq!(ra == RunResult::Completed, rb == RunResult::Completed);
    }
}

#[test]
fn diagnosed_indices_follow_the_table() {
    let outcomes = vec![failure(true), success(false), failure(false)];
    assert_eq!(diagnosed_indices(Mode::Warn, &outcomes), vec![0, 2]);
    assert_eq!(diagnosed_indices(Mode::WarnNopipe, &outcomes), vec![2]);
    assert_eq!(diagnosed_indices(Mode::Exit, &outcomes), vec![0, 2]);
    assert_eq!(diagnosed_indices(Mode::ExitNopipe, &outcomes), vec![2]);
}

#[test]
fn diagnosed_indices_empty_when_all_succeed() {
    let outcomes = vec![success(true), success(false)];
    assert_eq!(diagnosed_indices(Mode::Warn, &outcomes), Vec::<usize>::new());
}

#[test]
fn exit_codes() {
    assert_eq!(exit_code(&RunResult::Completed), 0);
    assert_eq!(exit_code(&RunResult::FailedFast { index: 0 }), 1);
}

#[test]
fn cause_messages() {
    assert_eq!(cause_message(FailureCause::CannotOpen), "cannot open for writing");
    assert_eq!(cause_message(FailureCause::WriteError), "write error");
}
