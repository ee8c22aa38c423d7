use teemux::fanout::{make_plans, simulate_run, Config, TargetSim};
use teemux::policy::{FailureCause, Mode, RunResult, WriteResult};
use teemux::sink::{OpenMode, Sink, Transformer};

fn config(mode: Mode, append: bool, targets: Vec<&str>) -> Config {
    Config {
        append,
        ignore_interrupts: false,
        diagnose_nonpipe_only: false,
        mode,
        targets: targets.into_iter().map(|t| t.to_string()).collect(),
    }
}

fn fresh_target() -> TargetSim {
    TargetSim { exists: false, pre: Vec::new(), is_pipe: false, fail_open: false, fail_write: false }
}

#[test]
fn plans_give_stdout_the_original_bytes() {
    let cfg = config(Mode::Warn, false, vec!["a.txt", "b.txt"]);
    let input = b"\x1b[31mhello\x1b[0m world\n";
    for t in [Transformer::Identity, Transformer::StripEscapes] {
        let plans = make_plans(&cfg, t, input);
        assert_eq!(plans.len(), 3);
        assert!(matches!(plans[0].sink, Sink::Stdout));
        assert_eq!(plans[0].payload, input.to_vec());
    }
}

#[test]
fn plans_give_files_the_transformed_bytes() {
    let cfg = config(Mode::Warn, false, vec!["a.txt", "b.txt"]);
    let input = b"\x1b[31mhello\x1b[0m world\n";
    let plans = make_plans(&cfg, Transformer::StripEscapes, input);
    for (k, name) in [(1, "a.txt"), (2, "b.txt")] {
        match &plans[k].sink {
            Sink::File { path, mode } => {
                assert_eq!(path, name);
                assert_eq!(*mode, OpenMode::Truncate);
            }
            Sink::Stdout => panic!("expected a file sink"),
        }
        assert_eq!(plans[k].payload, b"hello world\n".to_vec());
    }
}

#[test]
fn plans_use_append_mode_when_asked() {
    let cfg = config(Mode::Warn, true, vec!["log.txt"]);
    let plans = make_plans(&cfg, Transformer::Identity, b"x");
    match &plans[1].sink {
        Sink::File { mode, .. } => assert_eq!(*mode, OpenMode::Append),
        Sink::Stdout => panic!("expected a file sink"),
    }
}

#[test]
fn scenario_color_input_two_targets_warn() {
    // Input with colour codes, two fresh targets, mode Warn, append off:
    // standard output receives the literal input, both targets hold the
    // stripped text, exit status 0.
    let cfg = config(Mode::Warn, false, vec!["a.txt", "b.txt"]);
    let input = b"\x1b[31mhello\x1b[0m world\n";
    let targets = vec![fresh_target(), fresh_target()];
    let r = simulate_run(&cfg, Transformer::StripEscapes, input, false, false, &targets);
    assert_eq!(r.stdout_written, input.to_vec());
    assert_eq!(r.finals.len(), 2);
    for f in &r.finals {
        assert!(f.exists);
        assert_eq!(f.contents, b"hello world\n".to_vec());
    }
    assert_eq!(r.result, RunResult::Completed);
    assert_eq!(r.exit, 0);
}

#[test]
fn scenario_zero_targets_is_pure_pass_through() {
    let cfg = config(Mode::WarnNopipe, false, vec![]);
    let input = b"anything at all\n";
    let targets: Vec<TargetSim> = Vec::new();
    let r = simulate_run(&cfg, Transformer::StripEscapes, input, true, false, &targets);
    assert_eq!(r.stdout_written, input.to_vec());
    assert!(r.finals.is_empty());
    assert_eq!(r.outcomes.len(), 1);
    assert_eq!(r.result, RunResult::Completed);
    assert_eq!(r.exit, 0);
}

#[test]
fn scenario_unopenable_target_exit_nopipe_fails_fast() {
    // A target that cannot be opened for writing (say, a directory path),
    // classified as a regular file, under ExitNopipe: the run fails fast,
    // the exit status is non-zero, and the failure is diagnosed.
    let cfg = config(Mode::ExitNopipe, false, vec!["somedir"]);
    let input = b"content\n";
    let mut bad = fresh_target();
    bad.exists = true;
    bad.fail_open = true;
    let targets = vec![bad];
    let r = simulate_run(&cfg, Transformer::StripEscapes, input, false, false, &targets);
    assert_eq!(r.result, RunResult::FailedFast { index: 1 });
    assert_eq!(r.exit, 1);
    assert_eq!(r.outcomes[1].result, WriteResult::Failure(FailureCause::CannotOpen));
    let diagnosed = teemux::policy::diagnosed_indices(cfg.mode, &r.outcomes);
    assert_eq!(diagnosed, vec![1]);
}

#[test]
fn one_failing_sink_never_starves_the_others() {
    // Three targets, the middle one induced to fail its write: the other
    // two still receive the full content, under every mode.
    let input = b"\x1b[1mpayload\x1b[0m\n";
    for mode in [Mode::Warn, Mode::WarnNopipe, Mode::Exit, Mode::ExitNopipe] {
        let cfg = config(mode, false, vec!["a", "b", "c"]);
        let mut failing = fresh_target();
        failing.fail_write = true;
        let targets = vec![fresh_target(), failing, fresh_target()];
        let r = simulate_run(&cfg, Transformer::StripEscapes, input, false, false, &targets);
        assert_eq!(r.finals[0].contents, b"payload\n".to_vec());
        assert_eq!(r.finals[2].contents, b"payload\n".to_vec());
        assert_eq!(r.outcomes[2].result, WriteResult::Failure(FailureCause::WriteError));
        assert_eq!(r.outcomes[1].result, WriteResult::Success);
        assert_eq!(r.outcomes[3].result, WriteResult::Success);
    }
}

#[test]
fn truncate_discards_preexisting_target_content() {
    let cfg = config(Mode::Warn, false, vec!["a"]);
    let mut pre = fresh_target();
    pre.exists = true;
    pre.pre = b"OLD CONTENT".to_vec();
    let targets = vec![pre];
    let r = simulate_run(&cfg, Transformer::Identity, b"new", false, false, &targets);
    assert_eq!(r.finals[0].contents, b"new".to_vec());
}

#[test]
fn append_keeps_preexisting_target_content() {
    let cfg = config(Mode::Warn, true, vec!["a"]);
    let mut pre = fresh_target();
    pre.exists = true;
    pre.pre = b"pre-".to_vec();
    let targets = vec![pre];
    let r = simulate_run(&cfg, Transformer::Identity, b"new", false, false, &targets);
    assert_eq!(r.finals[0].contents, b"pre-new".to_vec());
}

#[test]
fn failed_open_leaves_target_untouched() {
    let cfg = config(Mode::Warn, false, vec!["a"]);
    let mut bad = fresh_target();
    bad.exists = true;
    bad.pre = b"kept".to_vec();
    bad.fail_open = true;
    let targets = vec![bad];
    let r = simulate_run(&cfg, Transformer::Identity, b"new", false, false, &targets);
    assert!(r.finals[0].exists);
    assert_eq!(r.finals[0].contents, b"kept".to_vec());
    assert_eq!(r.result, RunResult::Completed);
}

#[test]
fn stdout_failure_is_judged_like_any_sink() {
    let cfg = config(Mode::Exit, false, vec![]);
    let targets: Vec<TargetSim> = Vec::new();
    let r = simulate_run(&cfg, Transformer::Identity, b"x", false, true, &targets);
    assert_eq!(r.result, RunResult::FailedFast { index: 0 });
    assert_eq!(r.exit, 1);
    assert_eq!(r.stdout_written, Vec::<u8>::new());
}

#[test]
fn pipe_like_stdout_failure_is_ignored_under_exit_nopipe() {
    let cfg = config(Mode::ExitNopipe, false, vec![]);
    let targets: Vec<TargetSim> = Vec::new();
    let r = simulate_run(&cfg, Transformer::Identity, b"x", true, true, &targets);
    assert_eq!(r.result, RunResult::Completed);
    assert_eq!(r.exit, 0);
}

#[test]
fn interrupt_guard_follows_the_toggle() {
    let mut cfg = config(Mode::Warn, false, vec![]);
    assert!(!cfg.interrupt_guard_enabled());
    cfg.ignore_interrupts = true;
    assert!(cfg.interrupt_guard_enabled());
}
