//! The agent's task table as a state machine: what accepting, claiming,
//! moving and recovering a task do to its stored record.

use crate::model::opt_text;
use crate::remote_model::{
    is_terminal, state_text, RemoteRequest, RemoteState, RequestView, MAX_WAITING,
};
use crate::text::{owned, same_text};
use vstd::prelude::*;

verus! {

broadcast use vstd::string::group_string_axioms;

/// A task as the agent stores it.
#[derive(Debug, Clone)]
pub struct RemoteTask {
    pub id: String,
    pub controller_id: String,
    pub request: RemoteRequest,
    pub state: RemoteState,
    pub created_at: String,
    pub started_at: Option<String>,
    pub finished_at: Option<String>,
    pub exit_code: Option<i32>,
    pub result_status: String,
    pub error: Option<String>,
}

/// A stored task as plain values.
pub struct TaskState {
    pub id: Seq<char>,
    pub controller_id: Seq<char>,
    pub request: RequestView,
    pub state: RemoteState,
    pub created_at: Seq<char>,
    pub started_at: Option<Seq<char>>,
    pub finished_at: Option<Seq<char>>,
    pub exit_code: Option<i32>,
    pub result_status: Seq<char>,
    pub error: Option<Seq<char>>,
}

impl View for RemoteTask {
    type V = TaskState;

    open spec fn view(&self) -> TaskState {
        TaskState {
            id: self.id@,
            controller_id: self.controller_id@,
            request: self.request@,
            state: self.state,
            created_at: self.created_at@,
            started_at: opt_text(self.started_at),
            finished_at: opt_text(self.finished_at),
            exit_code: self.exit_code,
            result_status: self.result_status@,
            error: opt_text(self.error),
        }
    }
}

/// The result status of a new task: results are pending when the request
/// names a result directory.
pub open spec fn initial_result_status(r: RequestView) -> Seq<char> {
    if r.result_directory is Some {
        "pending"@
    } else {
        "not_requested"@
    }
}

/// What the agent does with a submitted request, from what its table holds:
/// whether the controller is authorized, the content hash stored under the
/// same controller and request id (if any), the request's own hash and the
/// number of queued tasks. `Ok(true)` inserts a new task, `Ok(false)`
/// returns the stored one.
pub open spec fn admission(authorized: bool, stored_hash: Option<Seq<char>>, hash: Seq<char>, waiting: i64) -> Result<bool, Seq<char>> {
    if !authorized {
        Err("UNAUTHORIZED"@)
    } else if stored_hash matches Some(h) && h != hash {
        Err("IDEMPOTENCY_CONFLICT"@)
    } else if stored_hash is Some {
        Ok(false)
    } else if waiting >= MAX_WAITING {
        Err("QUEUE_FULL"@)
    } else {
        Ok(true)
    }
}

/// The decision `accept` makes (see `admission`).
pub fn admission_decision(authorized: bool, stored_hash: Option<&str>, hash: &str, waiting: i64) -> (r: Result<bool, String>)
    ensures
        match (r, admission(authorized, match stored_hash { Some(h) => Some(h@), None => None }, hash@, waiting)) {
            (Ok(a), Ok(b)) => a == b,
            (Err(a), Err(b)) => a@ == b,
            _ => false,
        },
{
    if !authorized {
        return Err(owned("UNAUTHORIZED"));
    }
    if let Some(h) = stored_hash {
        if !same_text(h, hash) {
            return Err(owned("IDEMPOTENCY_CONFLICT"));
        }
        return Ok(false);
    }
    if waiting >= MAX_WAITING {
        return Err(owned("QUEUE_FULL"));
    }
    Ok(true)
}

impl RemoteTask {
    /// The record `accept` stores for a new request: queued, with results
    /// pending when a result directory is named.
    pub fn queued(id: String, controller_id: String, request: RemoteRequest, created_at: String) -> (t: RemoteTask)
        ensures
            t@ == (TaskState {
                id: id@,
                controller_id: controller_id@,
                request: request@,
                state: RemoteState::Queued,
                created_at: created_at@,
                started_at: None,
                finished_at: None,
                exit_code: None,
                result_status: initial_result_status(request@),
                error: None,
            }),
    {
        let result_status = if request.result_directory.is_some() {
            owned("pending")
        } else {
            owned("not_requested")
        };
        RemoteTask {
            id,
            controller_id,
            request,
            state: RemoteState::Queued,
            created_at,
            started_at: None,
            finished_at: None,
            exit_code: None,
            result_status,
            error: None,
        }
    }
}

/// Claiming: a queued task becomes starting; nothing else is claimed.
pub open spec fn claimed(t: TaskState, at: Seq<char>) -> Option<TaskState> {
    if t.state is Queued {
        Some(TaskState { state: RemoteState::Starting, started_at: Some(at), ..t })
    } else {
        None
    }
}

/// The result status after a move to `to`: pending results become
/// incomplete when the task needs recovery, or ends before it ran.
pub open spec fn moved_result_status(t: TaskState, to: RemoteState) -> Seq<char> {
    if t.result_status == "pending"@ && (to is RecoveryRequired || (is_terminal(to) && (t.state is Queued
        || t.state is Starting))) {
        "incomplete"@
    } else {
        t.result_status
    }
}

/// Moving a task to `to`, allowed only from one of the states `from` and
/// never out of a final state. The finish time is set for a final state and
/// cleared otherwise; the message is kept as the error of a failure or a
/// recovery.
pub open spec fn moved(t: TaskState, from: Seq<RemoteState>, to: RemoteState, exit: Option<i32>, message: Seq<char>, at: Seq<char>) -> Option<TaskState> {
    if !from.contains(t.state) || is_terminal(t.state) {
        None
    } else {
        Some(
            TaskState {
                state: to,
                finished_at: if is_terminal(to) { Some(at) } else { None },
                exit_code: exit,
                error: if to is Failed || to is RecoveryRequired { Some(message) } else { None },
                result_status: moved_result_status(t, to),
                ..t
            },
        )
    }
}

/// The text recorded when a restart leaves a started task's outcome unknown.
pub open spec fn restart_message() -> Seq<char> {
    "执行端重启，无法确认外部进程结果；不会自动重跑"@
}

/// The text recorded when a restart leaves result collection unconfirmed.
pub open spec fn results_lost_message() -> Seq<char> {
    "执行端在结果收集确认前重启；结果不完整，任务不会重跑"@
}

/// A task the agent may have started: its outcome is unknown after a restart.
pub open spec fn active(s: RemoteState) -> bool {
    s is Starting || s is Running || s is Cancelling
}

/// Recovery after a restart: a task that may have started needs recovery
/// (it is never run again), and a finished task whose results were still
/// pending has incomplete results. Queued tasks are kept as they are.
pub open spec fn recovered(t: TaskState, at: Seq<char>) -> TaskState {
    let first = if active(t.state) {
        moved(
            t,
            seq![RemoteState::Starting, RemoteState::Running, RemoteState::Cancelling],
            RemoteState::RecoveryRequired,
            None,
            restart_message(),
            at,
        )->0
    } else {
        t
    };
    if first.result_status == "pending"@ && is_terminal(first.state) {
        TaskState { result_status: "incomplete"@, ..first }
    } else {
        first
    }
}

/// An event the agent appends to a task's stream: its kind and text.
pub struct EventNote {
    pub kind: String,
    pub text: String,
}

/// The kinds and texts of a list of events.
pub open spec fn notes_view(v: Seq<EventNote>) -> Seq<(Seq<char>, Seq<char>)> {
    v.map_values(|n: EventNote| (n.kind@, n.text@))
}

/// The events recovery appends for a task: a `recovery_required` event for
/// a task that may have started, and a `results` event where results that
/// were pending became incomplete without that.
pub open spec fn recovery_notes(t: TaskState, at: Seq<char>) -> Seq<(Seq<char>, Seq<char>)> {
    let first = if active(t.state) {
        moved(
            t,
            seq![RemoteState::Starting, RemoteState::Running, RemoteState::Cancelling],
            RemoteState::RecoveryRequired,
            None,
            restart_message(),
            at,
        )->0
    } else {
        t
    };
    (if active(t.state) {
        seq![("recovery_required"@, restart_message())]
    } else {
        Seq::empty()
    }) + (if first.result_status == "pending"@ && is_terminal(first.state) {
        seq![("results"@, results_lost_message())]
    } else {
        Seq::empty()
    })
}

/// Whether `s` is one of `from`.
fn listed(from: &[RemoteState], s: RemoteState) -> (r: bool)
    ensures
        r == from@.contains(s),
{
    let mut i: usize = 0;
    while i < from.len()
        invariant
            i <= from.len(),
            forall|j: int| 0 <= j < i ==> from@[j] != s,
        decreases from.len() - i,
    {
        if from[i] == s {
            return true;
        }
        i += 1;
    }
    false
}

impl RemoteTask {
    /// `claim_next` on the task it picked: a queued task becomes starting.
    /// The flag says whether it changed; otherwise the task is returned as
    /// it was.
    pub fn claim(self, at: String) -> (r: (RemoteTask, bool))
        ensures
            r.1 == claimed(self@, at@) is Some,
            r.1 ==> r.0@ == claimed(self@, at@)->0,
            !r.1 ==> r.0@ == self@,
    {
        match self.state {
            RemoteState::Queued => {
                let mut t = self;
                t.state = RemoteState::Starting;
                t.started_at = Some(at);
                (t, true)
            },
            _ => (self, false),
        }
    }

    /// `transition`: moves the task to `to` if it is in one of `from` and not
    /// final (see `moved`). The flag says whether it moved; the event then
    /// recorded has the new state's name as its kind and `message` as its
    /// text.
    pub fn transition(self, from: &[RemoteState], to: RemoteState, exit: Option<i32>, message: &str, at: String) -> (r: (RemoteTask, bool))
        ensures
            r.1 == moved(self@, from@, to, exit, message@, at@) is Some,
            r.1 ==> r.0@ == moved(self@, from@, to, exit, message@, at@)->0,
            !r.1 ==> r.0@ == self@,
    {
        if !listed(from, self.state) || self.state.terminal() {
            return (self, false);
        }
        let pending = same_text(self.result_status.as_str(), "pending");
        let early = match self.state {
            RemoteState::Queued | RemoteState::Starting => true,
            _ => false,
        };
        let recovery = match to {
            RemoteState::RecoveryRequired => true,
            _ => false,
        };
        let keeps_message = match to {
            RemoteState::Failed | RemoteState::RecoveryRequired => true,
            _ => false,
        };
        let mut t = self;
        if pending && (recovery || (to.terminal() && early)) {
            t.result_status = owned("incomplete");
        }
        t.state = to;
        t.finished_at = if to.terminal() {
            Some(at)
        } else {
            None
        };
        t.exit_code = exit;
        t.error = if keeps_message {
            Some(owned(message))
        } else {
            None
        };
        (t, true)
    }

    /// `recover` on one stored task (see `recovered`), with the events it
    /// appends in order.
    pub fn recover(self, at: String) -> (r: (RemoteTask, Vec<EventNote>))
        ensures
            r.0@ == recovered(self@, at@),
            notes_view(r.1@) == recovery_notes(self@, at@),
    {
        let mut notes: Vec<EventNote> = Vec::new();
        let is_active = match self.state {
            RemoteState::Starting | RemoteState::Running | RemoteState::Cancelling => true,
            _ => false,
        };
        let mut t = self;
        if is_active {
            let from = [RemoteState::Starting, RemoteState::Running, RemoteState::Cancelling];
            let ghost listed_states = seq![RemoteState::Starting, RemoteState::Running, RemoteState::Cancelling];
            assert(from@ =~= listed_states);
            let (moved_task, changed) = t.transition(
                &from,
                RemoteState::RecoveryRequired,
                None,
                "执行端重启，无法确认外部进程结果；不会自动重跑",
                at.clone(),
            );
            assert(listed_states.contains(self.state)) by {
                if self.state is Starting {
                    assert(listed_states[0] == self.state);
                } else if self.state is Running {
                    assert(listed_states[1] == self.state);
                } else {
                    assert(listed_states[2] == self.state);
                }
            }
            assert(changed);
            t = moved_task;
            notes.push(
                EventNote {
                    kind: owned("recovery_required"),
                    text: owned("执行端重启，无法确认外部进程结果；不会自动重跑"),
                },
            );
        }
        let ghost middle = notes@;
        assert(notes_view(middle) =~= (if active(self@.state) {
            seq![("recovery_required"@, restart_message())]
        } else {
            Seq::<(Seq<char>, Seq<char>)>::empty()
        }));
        if same_text(t.result_status.as_str(), "pending") && t.state.terminal() {
            t.result_status = owned("incomplete");
            notes.push(
                EventNote {
                    kind: owned("results"),
                    text: owned("执行端在结果收集确认前重启；结果不完整，任务不会重跑"),
                },
            );
        }
        assert(notes_view(notes@) =~= recovery_notes(self@, at@));
        (t, notes)
    }
}

/// The states of the table, one by one, after recovery.
pub open spec fn all_recovered(ts: Seq<TaskState>, at: Seq<char>) -> Seq<TaskState> {
    ts.map_values(|t: TaskState| recovered(t, at))
}

/// A final task never moves again: every transition from a final state is
/// refused, whatever the allowed states, the target and the message.
pub proof fn final_states_are_absorbing(t: TaskState, from: Seq<RemoteState>, to: RemoteState, exit: Option<i32>, message: Seq<char>, at: Seq<char>)
    requires
        is_terminal(t.state),
    ensures
        moved(t, from, to, exit, message, at) is None,
        claimed(t, at) is None,
{
}

/// Recovery never runs a task again: afterwards no task is starting,
/// running or cancelling, a queued task is unchanged, and a task that was
/// active now needs recovery.
pub proof fn recovery_never_replays(t: TaskState, at: Seq<char>)
    ensures
        !active(recovered(t, at).state),
        t.state is Queued ==> recovered(t, at) == t,
        active(t.state) ==> recovered(t, at).state is RecoveryRequired,
        !active(t.state) ==> recovered(t, at).state == t.state,
{
    if active(t.state) {
        let from = seq![RemoteState::Starting, RemoteState::Running, RemoteState::Cancelling];
        if t.state is Starting {
            assert(from[0] == t.state);
        } else if t.state is Running {
            assert(from[1] == t.state);
        } else {
            assert(from[2] == t.state);
        }
    }
}

/// Recovering twice is recovering once.
pub proof fn recovery_is_idempotent(t: TaskState, at: Seq<char>, later: Seq<char>)
    ensures
        recovered(recovered(t, at), later) == recovered(t, at),
{
    recovery_never_replays(t, at);
    assert("incomplete"@ != "pending"@) by {
        reveal_strlit("incomplete");
        reveal_strlit("pending");
        assert("incomplete"@.len() != "pending"@.len());
    }
}

/// A controller that is not authorized, such as one whose access was
/// revoked, submits nothing: it is refused whatever it sends, a retry of a
/// request it stored before included.
pub proof fn unauthorized_controllers_are_refused(stored_hash: Option<Seq<char>>, hash: Seq<char>, waiting: i64)
    ensures
        admission(false, stored_hash, hash, waiting) == Err::<bool, Seq<char>>("UNAUTHORIZED"@),
{
}

/// A retry is never refused and never queued twice: for a stored request
/// with the same content, an authorized controller gets the stored task
/// back, however full the queue.
pub proof fn retries_return_the_stored_task(hash: Seq<char>, waiting: i64)
    ensures
        admission(true, Some(hash), hash, waiting) == Ok::<bool, Seq<char>>(false),
{
}

/// The same request id with different content is a conflict, not a second
/// task.
pub proof fn changed_content_conflicts(stored: Seq<char>, hash: Seq<char>, waiting: i64)
    requires
        stored != hash,
    ensures
        admission(true, Some(stored), hash, waiting) == Err::<bool, Seq<char>>("IDEMPOTENCY_CONFLICT"@),
{
}

/// A new request is queued only below the queue limit.
pub proof fn new_requests_respect_the_queue_limit(hash: Seq<char>, waiting: i64)
    ensures
        admission(true, None, hash, waiting) is Ok <==> waiting < MAX_WAITING,
{
}

/// A task moves only out of one of the states the caller allows, never out
/// of a final state, and always to the requested state; otherwise nothing
/// moves.
pub proof fn tasks_move_only_from_allowed_states(t: TaskState, from: Seq<RemoteState>, to: RemoteState, exit: Option<i32>, message: Seq<char>, at: Seq<char>)
    ensures
        moved(t, from, to, exit, message, at) is Some <==> from.contains(t.state) && !is_terminal(t.state),
        moved(t, from, to, exit, message, at) matches Some(n) ==> n.state == to && n.id == t.id && n.request == t.request
            && n.controller_id == t.controller_id,
{
}

} // verus!
