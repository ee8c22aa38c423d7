//! The run configuration, the plan of one concurrent write per sink, and a
//! pure model of a whole fan-out run.
//!
//! The writes themselves are performed by a driver outside this library,
//! one independent task per sink joined before the outcomes are judged.
//! Everything the driver decides is computed here: which sink receives
//! which bytes ([`make_plans`]), and how the collected outcomes are judged
//! ([`crate::policy::evaluate`]).  [`simulate_run`] composes the same
//! pieces over a modelled environment, so that a whole run — failing sinks
//! included — can be examined without touching a file system.

use crate::policy::{
    abort_worthy, evaluate, exit_code, has_abort, FailureCause, Mode, RunResult, SinkOutcome,
    WriteResult,
};
use crate::sink::{
    apply_write, contents_after_write, copy_bytes, mode_for_append, open_mode_of, transform,
    transform_spec, OpenMode, Sink, Transformer,
};
use vstd::prelude::*;

verus! {

/// One run's immutable configuration, built once at process start.
#[derive(Clone, Debug)]
pub struct Config {
    /// Open file sinks at end-of-file instead of truncating them.
    pub append: bool,
    /// Consume external interrupt signals for the duration of the run.
    pub ignore_interrupts: bool,
    /// Recorded toggle for diagnosing non-pipe write errors; `mode` is the
    /// sole authority over diagnosis and abort, so this field is never
    /// consulted.
    pub diagnose_nonpipe_only: bool,
    /// Behaviour on a sink write error.
    pub mode: Mode,
    /// The file targets, in order; may be empty, and then only standard
    /// output is written.
    pub targets: Vec<String>,
}

impl Config {
    /// Whether the run establishes the scoped guard that consumes every
    /// external interrupt until the run result is produced.
    pub fn interrupt_guard_enabled(&self) -> (r: bool)
        ensures
            r == self.ignore_interrupts,
    {
        self.ignore_interrupts
    }
}

/// One planned write: a sink and the exact bytes it is owed.
#[derive(Clone, Debug)]
pub struct WritePlan {
    pub sink: Sink,
    pub payload: Vec<u8>,
}

impl Sink {
    /// The sink is a file sink with this path and open mode.
    pub open spec fn is_file_with(self, path: Seq<char>, mode: OpenMode) -> bool {
        match self {
            Sink::Stdout => false,
            Sink::File { path: p, mode: m } => p@ == path && m == mode,
        }
    }
}

/// A fresh copy of a path string.
fn clone_string(s: &String) -> (r: String)
    ensures
        r@ == s@,
{
    String::from_str(s.as_str())
}

/// The plan of one write per sink: standard output first, with the
/// original bytes, then one file sink per configured target, in order,
/// each with the transformed bytes and the open mode derived from
/// `append`.
pub fn plan_writes(config: &Config, original: &[u8], transformed: &[u8]) -> (plans: Vec<WritePlan>)
    ensures
        plans@.len() == config.targets@.len() + 1,
        plans@[0].sink is Stdout,
        plans@[0].payload@ == original@,
        forall|k: int| 1 <= k < plans@.len() ==> (#[trigger] plans@[k]).sink.is_file_with(
            config.targets@[k - 1]@,
            mode_for_append(config.append),
        ) && plans@[k].payload@ == transformed@,
{
    let mut plans: Vec<WritePlan> = Vec::new();
    plans.push(WritePlan { sink: Sink::Stdout, payload: copy_bytes(original) });
    let m = open_mode_of(config.append);
    let mut i: usize = 0;
    while i < config.targets.len()
        invariant
            i <= config.targets@.len(),
            plans@.len() == i + 1,
            plans@[0].sink is Stdout,
            plans@[0].payload@ == original@,
            m == mode_for_append(config.append),
            forall|k: int| 1 <= k < plans@.len() ==> (#[trigger] plans@[k]).sink.is_file_with(
                config.targets@[k - 1]@,
                mode_for_append(config.append),
            ) && plans@[k].payload@ == transformed@,
        decreases config.targets@.len() - i,
    {
        let ghost prev = plans@;
        let path = clone_string(&config.targets[i]);
        plans.push(WritePlan { sink: Sink::File { path, mode: m }, payload: copy_bytes(transformed) });
        proof {
            assert(forall|k: int| 0 <= k < prev.len() ==> plans@[k] == #[trigger] prev[k]);
            assert(plans@[plans@.len() - 1].sink.is_file_with(
                config.targets@[i as int]@,
                mode_for_append(config.append),
            ));
        }
        i = i + 1;
    }
    plans
}

/// Transform the input and plan the run's writes.  Standard output is owed
/// the original input bytes whichever transformer the run selects; every
/// file sink is owed the transformed bytes.
pub fn make_plans(config: &Config, t: Transformer, input: &[u8]) -> (plans: Vec<WritePlan>)
    ensures
        plans@.len() == config.targets@.len() + 1,
        plans@[0].sink is Stdout,
        plans@[0].payload@ == input@,
        forall|k: int| 1 <= k < plans@.len() ==> (#[trigger] plans@[k]).sink.is_file_with(
            config.targets@[k - 1]@,
            mode_for_append(config.append),
        ) && plans@[k].payload@ == transform_spec(t, input@),
{
    let transformed = transform(t, input);
    plan_writes(config, input, transformed.as_slice())
}

/// The modelled environment of one file target: whether it pre-exists and
/// with what content, its pipe classification, and whether its open or its
/// write is induced to fail.
#[derive(Clone, Debug)]
pub struct TargetSim {
    pub exists: bool,
    pub pre: Vec<u8>,
    pub is_pipe: bool,
    pub fail_open: bool,
    pub fail_write: bool,
}

/// A file target's state after the run.
#[derive(Clone, Debug)]
pub struct FileFinal {
    pub exists: bool,
    pub contents: Vec<u8>,
}

/// Everything a modelled run produces: what standard output received, each
/// target's final state, one outcome per sink, and the judged result with
/// its exit status.
#[derive(Clone, Debug)]
pub struct RunSim {
    pub stdout_written: Vec<u8>,
    pub finals: Vec<FileFinal>,
    pub outcomes: Vec<SinkOutcome>,
    pub result: RunResult,
    pub exit: u8,
}

/// The content a target effectively holds before the run: its pre-existing
/// bytes, or nothing when it does not exist yet.
pub open spec fn pre_effective(t: TargetSim) -> Seq<u8> {
    if t.exists {
        t.pre@
    } else {
        Seq::empty()
    }
}

/// The outcome one modelled target produces: a failed open, a failed
/// write, or success, each tagged with the target's pipe classification.
pub open spec fn target_outcome_spec(t: TargetSim) -> SinkOutcome {
    SinkOutcome {
        is_pipe: t.is_pipe,
        result: if t.fail_open {
            WriteResult::Failure(FailureCause::CannotOpen)
        } else if t.fail_write {
            WriteResult::Failure(FailureCause::WriteError)
        } else {
            WriteResult::Success
        },
    }
}

/// The outcome of the standard-output write, which needs no open.
pub open spec fn stdout_outcome_spec(is_pipe: bool, fail_write: bool) -> SinkOutcome {
    SinkOutcome {
        is_pipe,
        result: if fail_write {
            WriteResult::Failure(FailureCause::WriteError)
        } else {
            WriteResult::Success
        },
    }
}

/// Whether the target exists after the run: opening creates it, a failed
/// open leaves it as it was.
pub open spec fn target_final_exists_spec(t: TargetSim) -> bool {
    t.exists || !t.fail_open
}

/// What an open alone leaves in the target: nothing under `Truncate`, the
/// effective pre-content under `Append`.
pub open spec fn opened_contents(t: TargetSim, mode: OpenMode) -> Seq<u8> {
    match mode {
        OpenMode::Truncate => Seq::empty(),
        OpenMode::Append => pre_effective(t),
    }
}

/// The target's content after the run: untouched when the open failed,
/// opened but unwritten when the write failed, and the completed write
/// otherwise.  A function of this target's own model alone: no other
/// sink's behaviour appears in it.
pub open spec fn target_final_contents_spec(t: TargetSim, mode: OpenMode, payload: Seq<u8>) -> Seq<
    u8,
> {
    if t.fail_open {
        pre_effective(t)
    } else if t.fail_write {
        opened_contents(t, mode)
    } else {
        contents_after_write(pre_effective(t), mode, payload)
    }
}

/// Run the whole fan-out over a modelled environment: transform the input,
/// give standard output the original bytes and every target the
/// transformed bytes, collect one outcome per sink — standard output
/// first, then the targets in order — and judge the outcomes under the
/// configured mode.  Each sink's outcome and final state is a function of
/// that sink's own model alone, so one sink's induced failure never keeps
/// another from receiving its full write.
pub fn simulate_run(
    config: &Config,
    t: Transformer,
    input: &[u8],
    stdout_is_pipe: bool,
    stdout_fail_write: bool,
    targets: &Vec<TargetSim>,
) -> (r: RunSim)
    ensures
        r.outcomes@.len() == targets@.len() + 1,
        r.outcomes@[0] == stdout_outcome_spec(stdout_is_pipe, stdout_fail_write),
        !stdout_fail_write ==> r.stdout_written@ == input@,
        stdout_fail_write ==> r.stdout_written@ == Seq::<u8>::empty(),
        r.finals@.len() == targets@.len(),
        forall|k: int| 0 <= k < targets@.len() ==> r.outcomes@[k + 1] == target_outcome_spec(
            #[trigger] targets@[k],
        ),
        forall|k: int| 0 <= k < targets@.len() ==> (#[trigger] r.finals@[k]).exists
            == target_final_exists_spec(targets@[k]),
        forall|k: int| 0 <= k < targets@.len() ==> (#[trigger] r.finals@[k]).contents@
            == target_final_contents_spec(
            targets@[k],
            mode_for_append(config.append),
            transform_spec(t, input@),
        ),
        r.result is Completed <==> !has_abort(config.mode, r.outcomes@),
        r.result matches RunResult::FailedFast { index } ==> {
            &&& index < r.outcomes@.len()
            &&& abort_worthy(config.mode, r.outcomes@[index as int])
            &&& forall|k: int| 0 <= k < index ==> !abort_worthy(
                config.mode,
                #[trigger] r.outcomes@[k],
            )
        },
        r.exit == 0 <==> r.result is Completed,
        r.exit == 0 || r.exit == 1,
{
    let payload = transform(t, input);
    let mode = open_mode_of(config.append);
    let stdout_written: Vec<u8> = if stdout_fail_write {
        Vec::new()
    } else {
        copy_bytes(input)
    };
    let mut outcomes: Vec<SinkOutcome> = Vec::new();
    outcomes.push(
        SinkOutcome {
            is_pipe: stdout_is_pipe,
            result: if stdout_fail_write {
                WriteResult::Failure(FailureCause::WriteError)
            } else {
                WriteResult::Success
            },
        },
    );
    let mut finals: Vec<FileFinal> = Vec::new();
    let mut k: usize = 0;
    while k < targets.len()
        invariant
            k <= targets@.len(),
            outcomes@.len() == k + 1,
            outcomes@[0] == stdout_outcome_spec(stdout_is_pipe, stdout_fail_write),
            finals@.len() == k,
            payload@ == transform_spec(t, input@),
            mode == mode_for_append(config.append),
            forall|j: int| 0 <= j < k ==> outcomes@[j + 1] == target_outcome_spec(
                #[trigger] targets@[j],
            ),
            forall|j: int| 0 <= j < k ==> (#[trigger] finals@[j]).exists
                == target_final_exists_spec(targets@[j]),
            forall|j: int| 0 <= j < k ==> (#[trigger] finals@[j]).contents@
                == target_final_contents_spec(
                targets@[j],
                mode_for_append(config.append),
                transform_spec(t, input@),
            ),
        decreases targets@.len() - k,
    {
        let ghost prev_outcomes = outcomes@;
        let ghost prev_finals = finals@;
        let tk = &targets[k];
        if tk.fail_open {
            outcomes.push(
                SinkOutcome {
                    is_pipe: tk.is_pipe,
                    result: WriteResult::Failure(FailureCause::CannotOpen),
                },
            );
            let contents: Vec<u8> = if tk.exists {
                copy_bytes(tk.pre.as_slice())
            } else {
                Vec::new()
            };
            finals.push(FileFinal { exists: tk.exists, contents });
        } else if tk.fail_write {
            outcomes.push(
                SinkOutcome {
                    is_pipe: tk.is_pipe,
                    result: WriteResult::Failure(FailureCause::WriteError),
                },
            );
            let contents: Vec<u8> = match mode {
                OpenMode::Truncate => Vec::new(),
                OpenMode::Append => if tk.exists {
                    copy_bytes(tk.pre.as_slice())
                } else {
                    Vec::new()
                },
            };
            finals.push(FileFinal { exists: true, contents });
        } else {
            outcomes.push(SinkOutcome { is_pipe: tk.is_pipe, result: WriteResult::Success });
            let empty: Vec<u8> = Vec::new();
            let contents: Vec<u8> = if tk.exists {
                apply_write(tk.pre.as_slice(), mode, payload.as_slice())
            } else {
                apply_write(empty.as_slice(), mode, payload.as_slice())
            };
            finals.push(FileFinal { exists: true, contents });
        }
        proof {
            assert(forall|j: int| 0 <= j < prev_outcomes.len() ==> outcomes@[j]
                == #[trigger] prev_outcomes[j]);
            assert(forall|j: int| 0 <= j < prev_finals.len() ==> finals@[j]
                == #[trigger] prev_finals[j]);
            assert(outcomes@[k + 1] == target_outcome_spec(targets@[k as int]));
            assert(finals@[k as int].exists == target_final_exists_spec(targets@[k as int]));
            assert(finals@[k as int].contents@ == target_final_contents_spec(
                targets@[k as int],
                mode_for_append(config.append),
                transform_spec(t, input@),
            ));
        }
        k = k + 1;
    }
    let result = evaluate(config.mode, &outcomes);
    let exit = exit_code(&result);
    RunSim { stdout_written, finals, outcomes, result, exit }
}

/// A healthy sink receives its full write: when neither its open nor its
/// write is induced to fail, its outcome is success and its file holds
/// exactly the completed write — the payload alone under `Truncate`, the
/// pre-existing bytes followed by the payload under `Append` — whatever
/// any concurrently-dispatched sink does.
pub proof fn lemma_healthy_sink_full_write(t: TargetSim, mode: OpenMode, payload: Seq<u8>)
    requires
        !t.fail_open,
        !t.fail_write,
    ensures
        target_outcome_spec(t).result is Success,
        target_final_contents_spec(t, mode, payload) == contents_after_write(
            pre_effective(t),
            mode,
            payload,
        ),
        mode == OpenMode::Truncate ==> target_final_contents_spec(t, mode, payload) == payload,
        mode == OpenMode::Append ==> target_final_contents_spec(t, mode, payload)
            == pre_effective(t) + payload,
{
}

/// Failures are isolated per sink: two runs whose models agree on sink `j`
/// give sink `j` the same outcome and the same final content, however the
/// other sinks of either run behave.
pub proof fn lemma_sink_isolation(
    a: Seq<TargetSim>,
    b: Seq<TargetSim>,
    j: int,
    mode: OpenMode,
    payload: Seq<u8>,
)
    requires
        0 <= j < a.len(),
        0 <= j < b.len(),
        a[j] == b[j],
    ensures
        target_outcome_spec(a[j]) == target_outcome_spec(b[j]),
        target_final_exists_spec(a[j]) == target_final_exists_spec(b[j]),
        target_final_contents_spec(a[j], mode, payload) == target_final_contents_spec(
            b[j],
            mode,
            payload,
        ),
{
}

} // verus!
