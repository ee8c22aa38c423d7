//! The error-mode table and the aggregation of per-sink write outcomes.
//!
//! For every sink failure the active mode answers two independent questions:
//! is the failure diagnosed (reported), and does it abort the run (non-zero
//! overall status).  The aggregate decision is an OR over all outcomes, so
//! it is insensitive to the order in which outcomes arrive.

use vstd::prelude::*;
use vstd::seq_lib::group_to_multiset_ensures;

verus! {

/// Behaviour on a sink write error.
#[derive(Clone, Copy, Debug, PartialEq, Eq, Structural)]
pub enum Mode {
    /// Diagnose errors writing to any output.
    Warn,
    /// Diagnose errors writing to any output that is not a pipe.
    WarnNopipe,
    /// Exit on an error writing to any output.
    Exit,
    /// Exit on an error writing to any output that is not a pipe.
    ExitNopipe,
}

impl Mode {
    /// The default mode: diagnose failures of outputs that are not pipes,
    /// never abort the run.
    pub fn default_mode() -> (m: Mode)
        ensures
            m == Mode::WarnNopipe,
    {
        Mode::WarnNopipe
    }
}

/// Why a sink failed: the target could not be created or opened, or an
/// opened target failed during the write.  The two causes terminate that
/// sink's participation alike; they differ only in the diagnostic text.
#[derive(Clone, Copy, Debug, PartialEq, Eq, Structural)]
pub enum FailureCause {
    CannotOpen,
    WriteError,
}

/// What one sink's write attempt came to.
#[derive(Clone, Copy, Debug, PartialEq, Eq, Structural)]
pub enum WriteResult {
    Success,
    Failure(FailureCause),
}

/// One sink's outcome together with its pipe classification, which is
/// computed once at open time and never changes during the run.
#[derive(Clone, Copy, Debug, PartialEq, Eq, Structural)]
pub struct SinkOutcome {
    pub is_pipe: bool,
    pub result: WriteResult,
}

/// The aggregate of a whole run: every write attempt succeeded or no
/// failure was abort-worthy, or the first abort-worthy failure, by the
/// position of its sink.
#[derive(Clone, Copy, Debug, PartialEq, Eq, Structural)]
pub enum RunResult {
    Completed,
    FailedFast { index: usize },
}

/// Whether a failure of a sink with the given pipe classification is
/// diagnosed under `mode`.
pub open spec fn diagnoses_spec(mode: Mode, is_pipe: bool) -> bool {
    match mode {
        Mode::Warn => true,
        Mode::WarnNopipe => !is_pipe,
        Mode::Exit => true,
        Mode::ExitNopipe => !is_pipe,
    }
}

/// Whether a failure of a sink with the given pipe classification aborts
/// the run under `mode`.
pub open spec fn aborts_spec(mode: Mode, is_pipe: bool) -> bool {
    match mode {
        Mode::Warn => false,
        Mode::WarnNopipe => false,
        Mode::Exit => true,
        Mode::ExitNopipe => !is_pipe,
    }
}

/// Whether a failure of a sink with the given pipe classification is
/// diagnosed under `mode`.
pub fn diagnoses(mode: Mode, is_pipe: bool) -> (r: bool)
    ensures
        r == diagnoses_spec(mode, is_pipe),
{
    match mode {
        Mode::Warn => true,
        Mode::WarnNopipe => !is_pipe,
        Mode::Exit => true,
        Mode::ExitNopipe => !is_pipe,
    }
}

/// Whether a failure of a sink with the given pipe classification aborts
/// the run under `mode`.
pub fn aborts(mode: Mode, is_pipe: bool) -> (r: bool)
    ensures
        r == aborts_spec(mode, is_pipe),
{
    match mode {
        Mode::Warn => false,
        Mode::WarnNopipe => false,
        Mode::Exit => true,
        Mode::ExitNopipe => !is_pipe,
    }
}

/// The outcome is a failure (of either cause).
pub open spec fn is_failure(o: SinkOutcome) -> bool {
    !(o.result is Success)
}

/// The outcome is a failure that `mode` diagnoses.
pub open spec fn diagnosed(mode: Mode, o: SinkOutcome) -> bool {
    is_failure(o) && diagnoses_spec(mode, o.is_pipe)
}

/// The outcome is a failure that `mode` escalates to a run-level abort.
pub open spec fn abort_worthy(mode: Mode, o: SinkOutcome) -> bool {
    is_failure(o) && aborts_spec(mode, o.is_pipe)
}

/// Some outcome in the sequence is abort-worthy under `mode`.
pub open spec fn has_abort(mode: Mode, outcomes: Seq<SinkOutcome>) -> bool {
    exists|k: int| 0 <= k < outcomes.len() && abort_worthy(mode, #[trigger] outcomes[k])
}

/// Walk all outcomes and judge the run: `Completed` when no outcome is
/// abort-worthy under `mode`, else `FailedFast` with the position of the
/// first abort-worthy outcome.
pub fn evaluate(mode: Mode, outcomes: &Vec<SinkOutcome>) -> (r: RunResult)
    ensures
        r is Completed <==> !has_abort(mode, outcomes@),
        r matches RunResult::FailedFast { index } ==> {
            &&& index < outcomes@.len()
            &&& abort_worthy(mode, outcomes@[index as int])
            &&& forall|k: int| 0 <= k < index ==> !abort_worthy(mode, #[trigger] outcomes@[k])
        },
{
    let mut i: usize = 0;
    while i < outcomes.len()
        invariant
            i <= outcomes@.len(),
            forall|k: int| 0 <= k < i ==> !abort_worthy(mode, #[trigger] outcomes@[k]),
        decreases outcomes@.len() - i,
    {
        let o = outcomes[i];
        let failed = match o.result {
            WriteResult::Success => false,
            WriteResult::Failure(_) => true,
        };
        if failed && aborts(mode, o.is_pipe) {
            return RunResult::FailedFast { index: i };
        }
        i = i + 1;
    }
    RunResult::Completed
}

/// The positions of the outcomes whose failure `mode` diagnoses, in order:
/// one diagnostic line is owed per reported failing sink.
pub fn diagnosed_indices(mode: Mode, outcomes: &Vec<SinkOutcome>) -> (r: Vec<usize>)
    ensures
        forall|a: int, b: int| 0 <= a < b < r@.len() ==> r@[a] < r@[b],
        forall|a: int| 0 <= a < r@.len() ==> (#[trigger] r@[a]) < outcomes@.len() && diagnosed(
            mode,
            outcomes@[r@[a] as int],
        ),
        forall|j: int| 0 <= j < outcomes@.len() && diagnosed(mode, #[trigger] outcomes@[j])
            ==> r@.contains(j as usize),
{
    let mut r: Vec<usize> = Vec::new();
    let mut i: usize = 0;
    while i < outcomes.len()
        invariant
            i <= outcomes@.len(),
            forall|a: int, b: int| 0 <= a < b < r@.len() ==> r@[a] < r@[b],
            forall|a: int| 0 <= a < r@.len() ==> (#[trigger] r@[a]) < i && diagnosed(
                mode,
                outcomes@[r@[a] as int],
            ),
            forall|j: int| 0 <= j < i && diagnosed(mode, #[trigger] outcomes@[j])
                ==> r@.contains(j as usize),
        decreases outcomes@.len() - i,
    {
        let o = outcomes[i];
        let failed = match o.result {
            WriteResult::Success => false,
            WriteResult::Failure(_) => true,
        };
        if failed && diagnoses(mode, o.is_pipe) {
            let ghost prev = r@;
            r.push(i);
            proof {
                assert(diagnosed(mode, outcomes@[i as int]));
                assert(forall|a: int| 0 <= a < prev.len() ==> r@[a] == #[trigger] prev[a]);
                assert forall|x: usize| prev.contains(x) implies r@.contains(x) by {
                    let idx = choose|idx: int| 0 <= idx < prev.len() && prev[idx] == x;
                    assert(r@[idx] == x);
                }
                assert(r@[r@.len() - 1] == i);
                assert(r@.contains(i));
            }
        }
        i = i + 1;
    }
    r
}

/// The process exit status owed to a run result: zero exactly when the run
/// completed, one when it failed fast.
pub fn exit_code(r: &RunResult) -> (c: u8)
    ensures
        c == 0 <==> *r is Completed,
        c == 0 || c == 1,
{
    match r {
        RunResult::Completed => 0,
        RunResult::FailedFast { .. } => 1,
    }
}

/// The diagnostic text owed to a failure cause.
pub fn cause_message(c: FailureCause) -> (r: String)
    ensures
        c == FailureCause::CannotOpen ==> r@ == "cannot open for writing"@,
        c == FailureCause::WriteError ==> r@ == "write error"@,
{
    match c {
        FailureCause::CannotOpen => String::from_str("cannot open for writing"),
        FailureCause::WriteError => String::from_str("write error"),
    }
}

/// Abort-worthiness is combined with a logical OR over all outcomes, so the
/// aggregate decision does not depend on the order in which the outcomes of
/// the concurrent writes arrive: two runs whose outcomes are the same up to
/// order are judged alike.
pub proof fn lemma_policy_order_insensitive(mode: Mode, a: Seq<SinkOutcome>, b: Seq<SinkOutcome>)
    requires
        a.to_multiset() == b.to_multiset(),
    ensures
        has_abort(mode, a) == has_abort(mode, b),
{
    broadcast use group_to_multiset_ensures;

    if has_abort(mode, a) {
        let k = choose|k: int| 0 <= k < a.len() && abort_worthy(mode, #[trigger] a[k]);
        assert(a.contains(a[k]));
        assert(b.to_multiset().count(a[k]) > 0);
        assert(b.contains(a[k]));
        let m = choose|m: int| 0 <= m < b.len() && b[m] == a[k];
        assert(abort_worthy(mode, b[m]));
    }
    if has_abort(mode, b) {
        let k = choose|k: int| 0 <= k < b.len() && abort_worthy(mode, #[trigger] b[k]);
        assert(b.contains(b[k]));
        assert(a.to_multiset().count(b[k]) > 0);
        assert(a.contains(b[k]));
        let m = choose|m: int| 0 <= m < a.len() && a[m] == b[k];
        assert(abort_worthy(mode, a[m]));
    }
}

} // verus!
