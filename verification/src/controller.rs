//! The controller's record of remote work: the agents it is paired with,
//! the submissions it has prepared, and the checks every answer of an agent
//! passes before the controller keeps it.

use crate::agent_tasks::{RemoteTask, TaskState};
use crate::environment::{pairs_view, EnvironmentMap};
use crate::outside::{uuid_parses, uuid_text};
use crate::remote_model::{
    relative_ok, validate_relative, Artifact, Execution, ExecutionView, RemoteEvent, RemoteRequest,
    RequestView, MAX_REQUEST_BYTES,
};
use crate::text::{all_hex, byte_len, only_hex_digits, owned, same_text, texts, utf8_len};
use vstd::prelude::*;

verus! {

broadcast use vstd::string::group_string_axioms;

/// A paired agent as the controller keeps it: where it is, the certificate
/// pinned for it, and the vault reference of the controller's token.
#[derive(Debug, Clone)]
pub struct RemoteConnection {
    pub id: String,
    pub context_id: String,
    pub node_id: String,
    pub agent_id: String,
    pub address: String,
    pub port: u16,
    pub certificate_pem: String,
    pub fingerprint: String,
    pub controller_id: String,
    pub credential_ref: String,
    pub name: String,
}

/// One submission as the controller records it.
#[derive(Debug, Clone)]
pub struct RemoteHistory {
    pub id: String,
    pub connection_id: String,
    pub target: RemoteConnection,
    pub request: RemoteRequest,
    pub submission_state: String,
    pub remote_id: Option<String>,
    pub task: Option<RemoteTask>,
    pub sync_error: Option<String>,
    pub created_at: String,
    pub synced_at: Option<String>,
}

/// Whether a stored connection would be replaced by `c` under another id:
/// the same network and node, a different connection id.
pub open spec fn renames_connection(old: RemoteConnection, c: RemoteConnection) -> bool {
    old.context_id@ == c.context_id@ && old.node_id@ == c.node_id@ && old.id@ != c.id@
}

/// The check before a connection is saved: re-pairing a node keeps its
/// connection id.
pub fn check_connection_id(existing: &Vec<RemoteConnection>, c: &RemoteConnection) -> (r: Result<(), String>)
    ensures
        r is Ok <==> forall|i: int| 0 <= i < existing.len() ==> !renames_connection(#[trigger] existing@[i], *c),
        r matches Err(e) ==> e@ == "CONNECTION_ID_MISMATCH: 重新配对应保留连接 ID"@,
{
    let mut i: usize = 0;
    while i < existing.len()
        invariant
            i <= existing.len(),
            forall|k: int| 0 <= k < i ==> !renames_connection(#[trigger] existing@[k], *c),
        decreases existing.len() - i,
    {
        let old = &existing[i];
        if same_text(old.context_id.as_str(), c.context_id.as_str()) && same_text(
            old.node_id.as_str(),
            c.node_id.as_str(),
        ) && !same_text(old.id.as_str(), c.id.as_str()) {
            return Err(owned("CONNECTION_ID_MISMATCH: 重新配对应保留连接 ID"));
        }
        i += 1;
    }
    Ok(())
}

/// Why a request cannot be prepared for a connection: its id is no UUID,
/// its JSON encoding (`encoded_len` bytes) is over the limit, or it is
/// addressed to another agent or node than the connection's.
pub open spec fn prepare_problem(r: RequestView, encoded_len: usize, c: RemoteConnection) -> Option<Seq<char>> {
    if !uuid_text(vstd::utf8::encode_utf8(r.request_id)) {
        Some("INVALID_REQUEST_ID"@)
    } else if encoded_len > MAX_REQUEST_BYTES {
        Some("REQUEST_LIMIT"@)
    } else if r.agent_id != c.agent_id@ || r.node_id != c.node_id@ {
        Some("TARGET_CHANGED"@)
    } else {
        None
    }
}

/// The checks on a request alone before its connection is read: a UUID
/// request id, and a JSON encoding within the limit.
pub fn check_request_for_prepare(request: &RemoteRequest, encoded_len: usize) -> (r: Result<(), String>)
    ensures
        r is Ok <==> uuid_text(vstd::utf8::encode_utf8(request.request_id@)) && encoded_len <= MAX_REQUEST_BYTES,
        r matches Err(e) ==> if !uuid_text(vstd::utf8::encode_utf8(request.request_id@)) {
            e@ == "INVALID_REQUEST_ID"@
        } else {
            e@ == "REQUEST_LIMIT"@
        },
{
    if !uuid_parses(request.request_id.as_str()) {
        return Err(owned("INVALID_REQUEST_ID"));
    }
    if encoded_len > MAX_REQUEST_BYTES {
        return Err(owned("REQUEST_LIMIT"));
    }
    Ok(())
}

/// The checks before a submission is recorded.
pub fn check_prepare(request: &RemoteRequest, encoded_len: usize, connection: &RemoteConnection) -> (r: Result<(), String>)
    ensures
        match prepare_problem(request@, encoded_len, *connection) {
            None => r is Ok,
            Some(p) => r matches Err(e) && e@ == p,
        },
{
    check_request_for_prepare(request, encoded_len)?;
    if !same_text(request.target.agent_id.as_str(), connection.agent_id.as_str()) || !same_text(
        request.target.node_id.as_str(),
        connection.node_id.as_str(),
    ) {
        return Err(owned("TARGET_CHANGED"));
    }
    Ok(())
}

/// What preparing a submission does with the one already recorded under
/// the same connection and request id (`stored_hash` is its content hash):
/// the same content returns it (`true`), other content is a conflict, and
/// without one a new submission is recorded (`false`).
pub open spec fn prepare_outcome(stored_hash: Option<Seq<char>>, hash: Seq<char>) -> Result<bool, Seq<char>> {
    match stored_hash {
        Some(h) => if h == hash {
            Ok(true)
        } else {
            Err("IDEMPOTENCY_CONFLICT"@)
        },
        None => Ok(false),
    }
}

/// Whether an earlier submission is returned, a new one recorded, or the
/// request refused as a conflict.
pub fn prepare_decision(stored_hash: Option<&str>, hash: &str) -> (r: Result<bool, String>)
    ensures
        match prepare_outcome(match stored_hash {
            Some(h) => Some(h@),
            None => None,
        }, hash@) {
            Ok(b) => r == Ok::<bool, String>(b),
            Err(e) => r matches Err(m) && m@ == e,
        },
{
    match stored_hash {
        Some(h) => {
            if same_text(h, hash) {
                Ok(true)
            } else {
                Err(owned("IDEMPOTENCY_CONFLICT"))
            }
        },
        None => Ok(false),
    }
}

/// The submission state after the controller lost the agent's answer: a
/// prepared or unknown submission becomes unknown; an accepted one stays.
pub open spec fn unknown_after(state: Seq<char>) -> Seq<char> {
    if state == "prepared"@ || state == "submission_unknown"@ {
        "submission_unknown"@
    } else {
        state
    }
}

/// The submission state `mark_unknown` leaves.
pub fn mark_unknown_state(state: &str) -> (r: String)
    ensures
        r@ == unknown_after(state@),
{
    if same_text(state, "prepared") || same_text(state, "submission_unknown") {
        owned("submission_unknown")
    } else {
        owned(state)
    }
}

fn same_texts(a: &Vec<String>, b: &Vec<String>) -> (r: bool)
    ensures
        r == (texts(a@) == texts(b@)),
{
    if a.len() != b.len() {
        assert(texts(a@).len() != texts(b@).len());
        return false;
    }
    let mut i: usize = 0;
    while i < a.len()
        invariant
            a.len() == b.len(),
            i <= a.len(),
            forall|k: int| 0 <= k < i ==> texts(a@)[k] == texts(b@)[k],
        decreases a.len() - i,
    {
        if !same_text(a[i].as_str(), b[i].as_str()) {
            assert(texts(a@)[i as int] != texts(b@)[i as int]);
            return false;
        }
        i += 1;
    }
    assert(texts(a@) =~= texts(b@));
    true
}

fn same_pairs(a: &Vec<(String, String)>, b: &Vec<(String, String)>) -> (r: bool)
    ensures
        r == (pairs_view(a@) == pairs_view(b@)),
{
    if a.len() != b.len() {
        assert(pairs_view(a@).len() != pairs_view(b@).len());
        return false;
    }
    let mut i: usize = 0;
    while i < a.len()
        invariant
            a.len() == b.len(),
            i <= a.len(),
            forall|k: int| 0 <= k < i ==> pairs_view(a@)[k] == pairs_view(b@)[k],
        decreases a.len() - i,
    {
        if !same_text(a[i].0.as_str(), b[i].0.as_str()) || !same_text(a[i].1.as_str(), b[i].1.as_str()) {
            assert(pairs_view(a@)[i as int] != pairs_view(b@)[i as int]);
            return false;
        }
        i += 1;
    }
    assert(pairs_view(a@) =~= pairs_view(b@));
    true
}

fn same_execution(a: &Execution, b: &Execution) -> (r: bool)
    ensures
        r == (a@ == b@),
{
    match (a, b) {
        (Execution::Exec { program: p, args: x }, Execution::Exec { program: q, args: y }) => {
            same_text(p.as_str(), q.as_str()) && same_texts(x, y)
        },
        (
            Execution::Script { interpreter: i, source: s, powershell_policy: p },
            Execution::Script { interpreter: j, source: t, powershell_policy: q },
        ) => *i == *j && same_text(s.as_str(), t.as_str()) && *p == *q,
        _ => false,
    }
}

/// `==` on requests: the same fields, the same execution and the same
/// environment.
pub fn same_request(a: &RemoteRequest, b: &RemoteRequest) -> (r: bool)
    ensures
        r == (a@ == b@),
{
    let dirs = match (&a.result_directory, &b.result_directory) {
        (Some(x), Some(y)) => same_text(x.as_str(), y.as_str()),
        (None, None) => true,
        _ => false,
    };
    same_text(a.request_id.as_str(), b.request_id.as_str()) && same_text(a.name.as_str(), b.name.as_str())
        && same_text(a.target.agent_id.as_str(), b.target.agent_id.as_str()) && same_text(
        a.target.node_id.as_str(),
        b.target.node_id.as_str(),
    ) && same_text(a.cwd.as_str(), b.cwd.as_str()) && same_execution(&a.execution, &b.execution)
        && a.timeout_seconds == b.timeout_seconds && same_pairs(
        a.environment.pairs(),
        b.environment.pairs(),
    ) && dirs
}

/// Whether an agent's answer describes the recorded submission: the same
/// request, sent by this controller, and the remote task id it was first
/// given, if any.
pub open spec fn answer_matches(h: RemoteHistory, t: TaskState) -> bool {
    &&& h.request@ == t.request
    &&& h.target.controller_id@ == t.controller_id
    &&& (h.remote_id matches Some(id) ==> id@ == t.id)
}

/// The check before an agent's answer is recorded against a submission.
pub fn check_answer(history: &RemoteHistory, task: &RemoteTask) -> (r: Result<(), String>)
    ensures
        r is Ok <==> answer_matches(*history, task@),
        r matches Err(e) ==> e@ == "REMOTE_RESPONSE_MISMATCH"@,
{
    let ids = match &history.remote_id {
        Some(id) => same_text(id.as_str(), task.id.as_str()),
        None => true,
    };
    if !same_request(&history.request, &task.request) || !same_text(
        history.target.controller_id.as_str(),
        task.controller_id.as_str(),
    ) || !ids {
        return Err(owned("REMOTE_RESPONSE_MISMATCH"));
    }
    Ok(())
}

/// `record_task`: the agent's answer, once checked, is recorded against
/// the submission: it becomes accepted under the answer's task id, keeps
/// the answer as its last known task, is synced at `at` and loses any
/// earlier sync error. An answer that does not describe the submission is
/// refused with `REMOTE_RESPONSE_MISMATCH`, and the submission is not
/// touched.
pub fn record_answer(history: RemoteHistory, task: RemoteTask, at: String) -> (r: Result<RemoteHistory, String>)
    ensures
        r is Ok <==> answer_matches(history, task@),
        r matches Err(e) ==> e@ == "REMOTE_RESPONSE_MISMATCH"@,
        r matches Ok(h) ==> {
            &&& h.id == history.id
            &&& h.connection_id == history.connection_id
            &&& h.target == history.target
            &&& h.request == history.request
            &&& h.created_at == history.created_at
            &&& h.submission_state@ == "accepted"@
            &&& h.remote_id matches Some(id) && id@ == task@.id
            &&& h.task matches Some(t) && t@ == task@
            &&& h.sync_error is None
            &&& h.synced_at matches Some(s) && s@ == at@
        },
{
    check_answer(&history, &task)?;
    let remote_id = task.id.clone();
    Ok(RemoteHistory {
        submission_state: owned("accepted"),
        remote_id: Some(remote_id),
        task: Some(task),
        sync_error: None,
        synced_at: Some(at),
        ..history
    })
}

/// Once a submission holds a remote task id, an answer about another
/// remote task is refused: a submission never moves to a second task.
pub proof fn recorded_submissions_keep_their_task(h: RemoteHistory, t: TaskState)
    requires
        h.remote_id matches Some(id) && id@ != t.id,
    ensures
        !answer_matches(h, t),
{
}

/// Whether an event of remote task `remote_id` can be kept: it belongs to
/// that task, its sequence number is positive and its text is at most
/// 64 KiB.
pub open spec fn event_ok(e: RemoteEvent, remote_id: Option<Seq<char>>) -> bool {
    remote_id == Some(e.task_id@) && e.seq >= 1 && byte_len(e.text@) <= 65536
}

/// The check before events are cached: every event passes [`event_ok`].
pub fn check_events(remote_id: Option<&str>, events: &Vec<RemoteEvent>) -> (r: Result<(), String>)
    ensures
        r is Ok <==> forall|i: int| 0 <= i < events.len() ==> event_ok(#[trigger] events@[i], match remote_id {
            Some(s) => Some(s@),
            None => None,
        }),
        r matches Err(e) ==> e@ == "REMOTE_EVENT_MISMATCH"@,
{
    let ghost rid = match remote_id {
        Some(s) => Some(s@),
        None => None::<Seq<char>>,
    };
    let mut i: usize = 0;
    while i < events.len()
        invariant
            i <= events.len(),
            rid == match remote_id {
                Some(s) => Some(s@),
                None => None::<Seq<char>>,
            },
            forall|k: int| 0 <= k < i ==> event_ok(#[trigger] events@[k], rid),
        decreases events.len() - i,
    {
        let e = &events[i];
        let belongs = match remote_id {
            Some(id) => same_text(e.task_id.as_str(), id),
            None => false,
        };
        if !belongs || e.seq < 1 || utf8_len(e.text.as_str()) > 65536 {
            return Err(owned("REMOTE_EVENT_MISMATCH"));
        }
        i += 1;
    }
    Ok(())
}

/// The largest result file a controller accepts.
pub const MAX_ARTIFACT: u64 = 524288000;

/// The largest total of result files a controller accepts.
pub const MAX_ARTIFACTS_TOTAL: u64 = 1073741824;

/// The number of result files a controller accepts.
pub const MAX_ARTIFACT_COUNT: usize = 100;

/// Whether a listed result file can be cached: it belongs to the remote
/// task, has a UUID id not used by an earlier entry, a safe relative name,
/// a size within the limit and a 64-digit hex SHA-256.
pub open spec fn artifact_ok(a: Artifact, remote_id: Seq<char>, earlier: Seq<Artifact>) -> bool {
    &&& a.task_id@ == remote_id
    &&& uuid_text(vstd::utf8::encode_utf8(a.id@))
    &&& forall|k: int| 0 <= k < earlier.len() ==> (#[trigger] earlier[k]).id@ != a.id@
    &&& relative_ok(a.name@)
    &&& a.size <= MAX_ARTIFACT
    &&& byte_len(a.sha256@) == 64
    &&& all_hex(a.sha256@)
}

/// The total size of a list of result files.
pub open spec fn total_size(arts: Seq<Artifact>) -> int
    decreases arts.len(),
{
    if arts.len() == 0 {
        0
    } else {
        total_size(arts.drop_last()) + arts.last().size
    }
}

/// Why a list of result files cannot be cached, in the order the checks
/// run: the remote task is not confirmed, there are too many files, a file
/// does not pass [`artifact_ok`], or they are too large together.
pub open spec fn artifacts_problem(remote_id: Option<Seq<char>>, arts: Seq<Artifact>) -> Option<Seq<char>> {
    match remote_id {
        None => Some("REMOTE_TASK_NOT_CONFIRMED"@),
        Some(rid) => if arts.len() > MAX_ARTIFACT_COUNT {
            Some("REMOTE_ARTIFACT_LIMIT"@)
        } else if exists|i: int| 0 <= i < arts.len() && !artifact_ok(#[trigger] arts[i], rid, arts.take(i)) {
            Some("REMOTE_ARTIFACT_MISMATCH"@)
        } else if total_size(arts) > MAX_ARTIFACTS_TOTAL {
            Some("REMOTE_ARTIFACT_LIMIT"@)
        } else {
            None
        },
    }
}

/// Whether an earlier entry of `arts[..end]` has id `id`.
fn id_seen(arts: &Vec<Artifact>, end: usize, id: &str) -> (r: bool)
    requires
        end <= arts.len(),
    ensures
        r == exists|k: int| 0 <= k < end && (#[trigger] arts@[k]).id@ == id@,
{
    let mut k: usize = 0;
    while k < end
        invariant
            k <= end <= arts.len(),
            forall|j: int| 0 <= j < k ==> (#[trigger] arts@[j]).id@ != id@,
        decreases end - k,
    {
        if same_text(arts[k].id.as_str(), id) {
            return true;
        }
        k += 1;
    }
    false
}

/// The check before a list of result files is cached for a submission
/// whose remote task is `remote_id`.
pub fn check_artifacts(remote_id: Option<&str>, artifacts: &Vec<Artifact>) -> (r: Result<(), String>)
    ensures
        match artifacts_problem(match remote_id {
            Some(s) => Some(s@),
            None => None,
        }, artifacts@) {
            None => r is Ok,
            Some(p) => r matches Err(e) && e@ == p,
        },
{
    let rid = match remote_id {
        None => {
            return Err(owned("REMOTE_TASK_NOT_CONFIRMED"));
        },
        Some(r) => r,
    };
    if artifacts.len() > MAX_ARTIFACT_COUNT {
        return Err(owned("REMOTE_ARTIFACT_LIMIT"));
    }
    let mut total: u64 = 0;
    let mut i: usize = 0;
    while i < artifacts.len()
        invariant
            i <= artifacts.len() <= MAX_ARTIFACT_COUNT,
            remote_id == Some(rid),
            total == total_size(artifacts@.take(i as int)),
            total <= i * MAX_ARTIFACT,
            forall|k: int| 0 <= k < i ==> artifact_ok(#[trigger] artifacts@[k], rid@, artifacts@.take(k)),
        decreases artifacts.len() - i,
    {
        let a = &artifacts[i];
        assert(artifacts@.take(i as int).len() == i);
        assert forall|k: int| 0 <= k < i implies (#[trigger] artifacts@.take(i as int)[k]) == artifacts@[k] by {}
        if !same_text(a.task_id.as_str(), rid) || !uuid_parses(a.id.as_str()) || id_seen(
            artifacts,
            i,
            a.id.as_str(),
        ) || validate_relative(a.name.as_str()).is_err() || a.size > MAX_ARTIFACT || utf8_len(
            a.sha256.as_str(),
        ) != 64 || !only_hex_digits(a.sha256.as_str()) {
            proof {
                if id_seen_spec(artifacts@, i as int, a.id@) {
                    let k = choose|k: int| 0 <= k < i && (#[trigger] artifacts@[k]).id@ == a.id@;
                    assert(artifacts@.take(i as int)[k] == artifacts@[k]);
                }
                assert(!artifact_ok(artifacts@[i as int], rid@, artifacts@.take(i as int)));
            }
            return Err(owned("REMOTE_ARTIFACT_MISMATCH"));
        }
        assert(artifacts@.take(i + 1).drop_last() =~= artifacts@.take(i as int));
        proof {
            assert(artifact_ok(artifacts@[i as int], rid@, artifacts@.take(i as int))) by {
                assert forall|k: int| 0 <= k < artifacts@.take(i as int).len() implies (#[trigger] artifacts@.take(
                    i as int,
                )[k]).id@ != a.id@ by {
                    assert(artifacts@.take(i as int)[k] == artifacts@[k]);
                }
            }
            assert((i + 1) * MAX_ARTIFACT == i * MAX_ARTIFACT + MAX_ARTIFACT) by (nonlinear_arith);
        }
        total = total + a.size;
        i += 1;
    }
    assert(artifacts@.take(artifacts.len() as int) =~= artifacts@);
    if total > MAX_ARTIFACTS_TOTAL {
        return Err(owned("REMOTE_ARTIFACT_LIMIT"));
    }
    Ok(())
}

spec fn id_seen_spec(arts: Seq<Artifact>, end: int, id: Seq<char>) -> bool {
    exists|k: int| 0 <= k < end && (#[trigger] arts[k]).id@ == id
}

/// The first event sequence number a page after `after` asks for: a
/// negative position reads from the start.
pub fn page_start(after: i64) -> (r: i64)
    ensures
        r == if after < 0 {
            0
        } else {
            after
        },
{
    if after < 0 {
        0
    } else {
        after
    }
}

/// The most events one page shows.
pub const EVENT_PAGE: usize = 200;

/// Whether two events carry the same fields.
pub open spec fn same_event(a: RemoteEvent, b: RemoteEvent) -> bool {
    a.seq == b.seq && a.task_id@ == b.task_id@ && a.kind@ == b.kind@ && a.text@ == b.text@
        && a.occurred_at@ == b.occurred_at@
}

fn copy_event(e: &RemoteEvent) -> (r: RemoteEvent)
    ensures
        same_event(r, *e),
{
    RemoteEvent {
        seq: e.seq,
        task_id: e.task_id.clone(),
        kind: e.kind.clone(),
        text: e.text.clone(),
        occurred_at: e.occurred_at.clone(),
    }
}

/// The index of the first cached event with the least sequence number
/// above `cursor`, if any.
fn next_event(cached: &Vec<RemoteEvent>, cursor: i64) -> (r: Option<usize>)
    ensures
        r is None ==> forall|k: int| 0 <= k < cached@.len() ==> (#[trigger] cached@[k]).seq <= cursor,
        r matches Some(b) ==> b < cached@.len() && cached@[b as int].seq > cursor && forall|k: int|
            0 <= k < cached@.len() && (#[trigger] cached@[k]).seq > cursor ==> cached@[b as int].seq <= cached@[k].seq,
{
    let mut best: Option<usize> = None;
    let mut i: usize = 0;
    while i < cached.len()
        invariant
            i <= cached@.len(),
            best is None ==> forall|k: int| 0 <= k < i ==> (#[trigger] cached@[k]).seq <= cursor,
            best matches Some(b) ==> b < i && cached@[b as int].seq > cursor && forall|k: int|
                0 <= k < i && (#[trigger] cached@[k]).seq > cursor ==> cached@[b as int].seq <= cached@[k].seq,
        decreases cached.len() - i,
    {
        let s = cached[i].seq;
        if s > cursor {
            match best {
                None => {
                    best = Some(i);
                },
                Some(b) => {
                    if s < cached[b].seq {
                        best = Some(i);
                    }
                },
            }
        }
        i += 1;
    }
    best
}

/// Events in strictly increasing sequence order, all above `start`.
#[verifier::opaque]
pub open spec fn increasing_above(out: Seq<RemoteEvent>, start: i64) -> bool {
    &&& forall|i: int| 0 <= i < out.len() ==> (#[trigger] out[i]).seq > start
    &&& forall|i: int, j: int| 0 <= i < j < out.len() ==> (#[trigger] out[i]).seq < (#[trigger] out[j]).seq
}

/// Every event of `out` is one of `cached`.
#[verifier::opaque]
pub open spec fn drawn_from(out: Seq<RemoteEvent>, cached: Seq<RemoteEvent>) -> bool {
    forall|i: int| 0 <= i < out.len() ==> exists|k: int| 0 <= k < cached.len() && same_event(#[trigger] out[i], cached[k])
}

/// Every cached event above `start` and up to `upto` has its sequence
/// number in `out`.
#[verifier::opaque]
pub open spec fn covers(out: Seq<RemoteEvent>, cached: Seq<RemoteEvent>, start: i64, upto: i64) -> bool {
    forall|k: int| 0 <= k < cached.len() && start < (#[trigger] cached[k]).seq <= upto ==> exists|i: int|
        0 <= i < out.len() && (#[trigger] out[i]).seq == cached[k].seq
}

proof fn page_step_order(before: Seq<RemoteEvent>, e: RemoteEvent, start: i64, cursor: i64)
    requires
        increasing_above(before, start),
        before.len() == 0 ==> cursor == start,
        before.len() > 0 ==> cursor == before[before.len() - 1].seq,
        e.seq > cursor,
    ensures
        increasing_above(before.push(e), start),
{
    reveal(increasing_above);
    let out = before.push(e);
    assert forall|i: int| 0 <= i < out.len() implies (#[trigger] out[i]).seq > start by {
        if i < before.len() {
            assert(out[i] == before[i]);
        }
    }
    assert forall|i: int, j: int| 0 <= i < j < out.len() implies (#[trigger] out[i]).seq < (#[trigger] out[j]).seq by {
        assert(out[i] == before[i]);
        if j < before.len() {
            assert(out[j] == before[j]);
        } else if i < before.len() - 1 {
            assert(before[i].seq < before[before.len() - 1].seq);
        }
    }
}

proof fn page_step_drawn(before: Seq<RemoteEvent>, e: RemoteEvent, cached: Seq<RemoteEvent>, b: int)
    requires
        drawn_from(before, cached),
        0 <= b < cached.len(),
        same_event(e, cached[b]),
    ensures
        drawn_from(before.push(e), cached),
{
    reveal(drawn_from);
    let out = before.push(e);
    assert forall|i: int| 0 <= i < out.len() implies exists|k: int| 0 <= k < cached.len() && same_event(#[trigger] out[i], cached[k]) by {
        if i < before.len() {
            assert(out[i] == before[i]);
        } else {
            assert(same_event(out[i], cached[b]));
        }
    }
}

proof fn page_step_covers(before: Seq<RemoteEvent>, e: RemoteEvent, cached: Seq<RemoteEvent>, b: int, start: i64, cursor: i64)
    requires
        covers(before, cached, start, cursor),
        0 <= b < cached.len(),
        e.seq == cached[b].seq,
        cached[b].seq > cursor,
        forall|k: int| 0 <= k < cached.len() && (#[trigger] cached[k]).seq > cursor ==> cached[b].seq <= cached[k].seq,
    ensures
        covers(before.push(e), cached, start, e.seq),
{
    reveal(covers);
    let out = before.push(e);
    assert forall|k: int| 0 <= k < cached.len() && start < (#[trigger] cached[k]).seq <= e.seq implies exists|i: int|
        0 <= i < out.len() && (#[trigger] out[i]).seq == cached[k].seq by {
        if cached[k].seq <= cursor {
            let i = choose|i: int| 0 <= i < before.len() && (#[trigger] before[i]).seq == cached[k].seq;
            assert(out[i] == before[i]);
        } else {
            assert(out[out.len() - 1].seq == cached[k].seq);
        }
    }
}

/// `events`: the cached events of a submission after the cursor `after`
/// (a negative cursor reads from the start), in increasing sequence order,
/// each sequence number once, at most 200. Every returned event is a
/// cached one, and no cached event above the cursor is skipped: the page
/// holds all of them, or the 200 with the least sequence numbers.
pub fn event_page(cached: &Vec<RemoteEvent>, after: i64) -> (r: Vec<RemoteEvent>)
    ensures
        r@.len() <= EVENT_PAGE,
        increasing_above(r@, if after < 0 { 0 } else { after }),
        drawn_from(r@, cached@),
        r@.len() < EVENT_PAGE ==> covers(r@, cached@, if after < 0 { 0 } else { after }, i64::MAX),
        r@.len() == EVENT_PAGE ==> covers(r@, cached@, if after < 0 { 0 } else { after }, r@[r@.len() - 1].seq),
{
    let start = page_start(after);
    let mut cursor = start;
    let mut out: Vec<RemoteEvent> = Vec::new();
    proof {
        reveal(increasing_above);
        reveal(drawn_from);
        reveal(covers);
    }
    loop
        invariant
            out@.len() <= EVENT_PAGE,
            increasing_above(out@, start),
            drawn_from(out@, cached@),
            covers(out@, cached@, start, cursor),
            out@.len() == 0 ==> cursor == start,
            out@.len() > 0 ==> cursor == out@[out@.len() - 1].seq,
        ensures
            out@.len() <= EVENT_PAGE,
            increasing_above(out@, start),
            drawn_from(out@, cached@),
            out@.len() < EVENT_PAGE ==> covers(out@, cached@, start, i64::MAX),
            out@.len() == EVENT_PAGE ==> covers(out@, cached@, start, out@[out@.len() - 1].seq),
        decreases EVENT_PAGE - out@.len(),
    {
        if out.len() >= EVENT_PAGE {
            break;
        }
        match next_event(cached, cursor) {
            None => {
                proof {
                    reveal(covers);
                }
                break;
            },
            Some(b) => {
                let e = copy_event(&cached[b]);
                proof {
                    page_step_order(out@, e, start, cursor);
                    page_step_drawn(out@, e, cached@, b as int);
                    page_step_covers(out@, e, cached@, b as int, start, cursor);
                }
                cursor = e.seq;
                out.push(e);
            },
        }
    }
    out
}

/// Recording the agent's answer never moves a submission back: an
/// accepted or unknown submission stays so when its answer is lost.
pub proof fn lost_answers_never_undo_acceptance(state: Seq<char>)
    ensures
        state == "accepted"@ ==> unknown_after(state) == "accepted"@,
        unknown_after(unknown_after(state)) == unknown_after(state),
        unknown_after(state) == "submission_unknown"@ || unknown_after(state) == state,
{
    reveal_strlit("accepted");
    reveal_strlit("prepared");
    reveal_strlit("submission_unknown");
    assert("accepted"@.len() != "submission_unknown"@.len());
    assert("accepted"@[0] != "prepared"@[0]);
}

/// A submission whose answer was lost stays one submission: once marked
/// unknown it stays unknown however often the loss is recorded, and
/// preparing the same request again returns that recorded submission
/// rather than a new one, while other content under its request id is
/// refused.
pub proof fn retried_preparation_keeps_the_unknown_submission(hash: Seq<char>, other: Seq<char>)
    requires
        other != hash,
    ensures
        unknown_after("prepared"@) == "submission_unknown"@,
        unknown_after(unknown_after("prepared"@)) == "submission_unknown"@,
        prepare_outcome(Some(hash), hash) == Ok::<bool, Seq<char>>(true),
        prepare_outcome(Some(hash), other) is Err,
{
}

/// A retried preparation with the same content returns the recorded
/// submission, and one with other content is refused: a request id never
/// stands for two different submissions.
pub proof fn one_submission_per_request_id(stored: Seq<char>, hash: Seq<char>)
    ensures
        prepare_outcome(Some(stored), hash) is Ok <==> stored == hash,
        prepare_outcome(Some(stored), stored) == Ok::<bool, Seq<char>>(true),
        prepare_outcome(None, hash) == Ok::<bool, Seq<char>>(false),
{
}

} // verus!
