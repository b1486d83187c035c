//! The decisions of the agent's task runner: how a worker's end becomes the
//! task's final state, what a cancel does in each state, and how the
//! output of a task is kept within its budget.

use crate::remote_model::{RemoteState, MAX_OUTPUT_BYTES};
use vstd::prelude::*;

verus! {

/// The final state, exit code and message of a worker that exited with
/// `code` (`None` where it was ended by a signal): success exactly on exit
/// code 0; a missing code is recorded as 1.
pub fn exit_outcome(code: Option<i32>) -> (r: (RemoteState, i32, &'static str))
    ensures
        r.0 == (if code == Some(0i32) { RemoteState::Succeeded } else { RemoteState::Failed }),
        r.1 == (match code {
            Some(c) => c,
            None => 1,
        }),
        r.2@ == (if code == Some(0i32) { "任务完成"@ } else { "任务以非零状态结束"@ }),
{
    match code {
        Some(0) => (RemoteState::Succeeded, 0, "任务完成"),
        Some(c) => (RemoteState::Failed, c, "任务以非零状态结束"),
        None => (RemoteState::Failed, 1, "任务以非零状态结束"),
    }
}

/// The final state and message of a worker that was stopped: by its
/// timeout, or by a cancel.
pub fn stop_outcome(timed_out: bool) -> (r: (RemoteState, &'static str))
    ensures
        r.0 == (if timed_out { RemoteState::TimedOut } else { RemoteState::Cancelled }),
        r.1@ == (if timed_out { "任务超时，已结束进程树"@ } else { "任务已取消，已结束进程树"@ }),
{
    if timed_out {
        (RemoteState::TimedOut, "任务超时，已结束进程树")
    } else {
        (RemoteState::Cancelled, "任务已取消，已结束进程树")
    }
}

/// What a cancel does to a task.
#[derive(Debug, Clone, Copy, PartialEq, Eq, Structural)]
pub enum CancelStep {
    /// A queued task is cancelled at once.
    CancelNow,
    /// A starting or running task moves to cancelling and its runner stops
    /// its processes.
    StopRunning,
    /// Any other task is left as it is.
    Nothing,
}

/// The cancel step for a task in `state`.
pub open spec fn cancel_step_for(state: RemoteState) -> CancelStep {
    match state {
        RemoteState::Queued => CancelStep::CancelNow,
        RemoteState::Starting | RemoteState::Running => CancelStep::StopRunning,
        _ => CancelStep::Nothing,
    }
}

/// What a cancel does to a task in `state`.
pub fn cancel_step(state: RemoteState) -> (r: CancelStep)
    ensures
        r == cancel_step_for(state),
{
    match state {
        RemoteState::Queued => CancelStep::CancelNow,
        RemoteState::Starting | RemoteState::Running => CancelStep::StopRunning,
        _ => CancelStep::Nothing,
    }
}

/// What becomes of one line of a task's output.
#[derive(Debug, Clone, Copy, PartialEq, Eq, Structural)]
pub enum LineAction {
    /// The line is recorded.
    Record,
    /// The line passes the budget: it is dropped and the one truncation
    /// event is recorded.
    Truncate,
    /// The line passes the budget after the truncation was recorded: it is
    /// dropped.
    Drop,
}

/// The output budget a task's stdout and stderr share: the bytes left, and
/// whether the truncation was recorded.
#[derive(Debug, Clone, Copy, PartialEq, Eq, Structural)]
pub struct OutputBudget {
    pub left: usize,
    pub truncated: bool,
}

/// One line of `len` bytes: it costs its length and its line break. A line
/// that costs more than is left empties the budget; the first such line
/// records the truncation.
pub open spec fn budget_step(b: OutputBudget, len: usize) -> (OutputBudget, LineAction) {
    if len + 1 > b.left {
        (OutputBudget { left: 0, truncated: true }, if b.truncated { LineAction::Drop } else { LineAction::Truncate })
    } else {
        (OutputBudget { left: (b.left - len - 1) as usize, truncated: b.truncated }, LineAction::Record)
    }
}

impl OutputBudget {
    /// A task's budget before any output.
    pub fn new() -> (r: OutputBudget)
        ensures
            r == (OutputBudget { left: MAX_OUTPUT_BYTES, truncated: false }),
    {
        OutputBudget { left: MAX_OUTPUT_BYTES, truncated: false }
    }

    /// Spends the budget on a line of `len` bytes (see [`budget_step`]).
    pub fn take(self, len: usize) -> (r: (OutputBudget, LineAction))
        ensures
            r == budget_step(self, len),
    {
        if len >= self.left {
            (OutputBudget { left: 0, truncated: true }, if self.truncated { LineAction::Drop } else { LineAction::Truncate })
        } else {
            (OutputBudget { left: self.left - len - 1, truncated: self.truncated }, LineAction::Record)
        }
    }
}

/// The budget and the actions after a sequence of lines of the given
/// lengths.
pub open spec fn budget_run(b: OutputBudget, lens: Seq<usize>) -> (OutputBudget, Seq<LineAction>)
    decreases lens.len(),
{
    if lens.len() == 0 {
        (b, Seq::empty())
    } else {
        let before = budget_run(b, lens.drop_last());
        let step = budget_step(before.0, lens.last());
        (step.0, before.1.push(step.1))
    }
}

/// The bytes, line breaks included, of the lines that were recorded.
pub open spec fn recorded_bytes(lens: Seq<usize>, actions: Seq<LineAction>) -> int
    decreases lens.len(),
{
    if lens.len() == 0 || actions.len() == 0 {
        0
    } else {
        recorded_bytes(lens.drop_last(), actions.drop_last()) + if actions.last() == LineAction::Record {
            lens.last() + 1
        } else {
            0
        }
    }
}

/// A task's output stays within its budget and its truncation is recorded
/// once: whatever lines the worker writes, the recorded lines cost at most
/// the budget, and at most one line records the truncation, exactly when
/// the budget was passed.
pub proof fn output_stays_within_its_budget(lens: Seq<usize>)
    ensures
        recorded_bytes(lens, budget_run(OutputBudget { left: MAX_OUTPUT_BYTES, truncated: false }, lens).1)
            <= MAX_OUTPUT_BYTES,
        forall|i: int, j: int|
            0 <= i < j < lens.len() ==> !((#[trigger] budget_run(OutputBudget { left: MAX_OUTPUT_BYTES, truncated: false }, lens).1[i]
                == LineAction::Truncate) && (#[trigger] budget_run(OutputBudget { left: MAX_OUTPUT_BYTES, truncated: false }, lens).1[j]
                == LineAction::Truncate)),
{
    budget_run_facts(OutputBudget { left: MAX_OUTPUT_BYTES, truncated: false }, lens);
}

proof fn budget_run_facts(b: OutputBudget, lens: Seq<usize>)
    requires
        !b.truncated,
    ensures
        budget_run(b, lens).1.len() == lens.len(),
        recorded_bytes(lens, budget_run(b, lens).1) + budget_run(b, lens).0.left <= b.left,
        budget_run(b, lens).0.truncated <==> exists|i: int| 0 <= i < lens.len() && #[trigger] budget_run(b, lens).1[i] == LineAction::Truncate,
        forall|i: int, j: int|
            0 <= i < j < lens.len() ==> !((#[trigger] budget_run(b, lens).1[i] == LineAction::Truncate) && (#[trigger] budget_run(b, lens).1[j]
                == LineAction::Truncate)),
    decreases lens.len(),
{
    if lens.len() > 0 {
        let rest = lens.drop_last();
        budget_run_facts(b, rest);
        let before = budget_run(b, rest);
        let step = budget_step(before.0, lens.last());
        let acts = budget_run(b, lens).1;
        assert(acts == before.1.push(step.1));
        assert(lens.drop_last() == rest);
        assert(acts.drop_last() =~= before.1);
        assert forall|i: int| 0 <= i < rest.len() implies acts[i] == before.1[i] by {}
        if step.1 == LineAction::Truncate {
            assert(!before.0.truncated);
            assert forall|i: int, j: int| 0 <= i < j < lens.len() implies !((#[trigger] acts[i] == LineAction::Truncate) && (#[trigger] acts[j]
                == LineAction::Truncate)) by {
                if j == lens.len() - 1 {
                    assert(acts[i] == before.1[i]);
                    if acts[i] == LineAction::Truncate {
                        assert(exists|k: int| 0 <= k < rest.len() && #[trigger] before.1[k] == LineAction::Truncate);
                    }
                } else {
                    assert(acts[i] == before.1[i] && acts[j] == before.1[j]);
                }
            }
            assert(acts[lens.len() - 1] == LineAction::Truncate);
        } else {
            assert forall|i: int, j: int| 0 <= i < j < lens.len() implies !((#[trigger] acts[i] == LineAction::Truncate) && (#[trigger] acts[j]
                == LineAction::Truncate)) by {
                if j < lens.len() - 1 {
                    assert(acts[i] == before.1[i] && acts[j] == before.1[j]);
                }
            }
            if budget_run(b, lens).0.truncated {
                assert(before.0.truncated || step.1 == LineAction::Truncate);
                let k = choose|k: int| 0 <= k < rest.len() && #[trigger] before.1[k] == LineAction::Truncate;
                assert(acts[k] == LineAction::Truncate);
            } else {
                assert forall|i: int| 0 <= i < lens.len() implies #[trigger] acts[i] != LineAction::Truncate by {
                    if i < rest.len() {
                        assert(acts[i] == before.1[i]);
                    }
                }
            }
        }
    }
}

} // verus!
