//! The agent's request handling rules: how callers are authenticated, which
//! submissions are admitted, what status an error answers with, and how a
//! runner fault shows on a task.

use crate::access::AuthorizedController;
use crate::agent_tasks::{RemoteTask, TaskState};
use crate::outside::{bytes_equal_ct, sha256};
use crate::remote_model::{
    hex_digest, interpreter_runs_on, is_terminal, request_problem, same_target,
    AgentCapabilities, Execution, ExecutionView, Interpreter, RemoteRequest, RemoteState,
    TargetIdentity, MAX_REQUEST_BYTES,
};
use crate::text::{
    byte_len, chars_of, concat, contains_part, has_part, has_prefix, hex_text, owned, same_text,
    slice_chars, starts_with, string_of, utf8_len,
};
use vstd::prelude::*;

verus! {

broadcast use vstd::string::group_string_axioms;

/// The HTTP status an error message is answered with: 401 for an
/// authentication failure, 404 for something missing, 409 for a conflict,
/// 429 for a full queue, and 400 otherwise. The first that the message
/// mentions decides.
pub open spec fn status_for(message: Seq<char>) -> u16 {
    if has_part(message, "UNAUTHORIZED"@) {
        401
    } else if has_part(message, "NOT_FOUND"@) {
        404
    } else if has_part(message, "CONFLICT"@) {
        409
    } else if has_part(message, "QUEUE_FULL"@) {
        429
    } else {
        400
    }
}

/// The HTTP status of an error answer.
pub fn error_status(message: &str) -> (r: u16)
    ensures
        r == status_for(message@),
{
    let m = chars_of(message);
    if contains_part(&m, &chars_of("UNAUTHORIZED")) {
        401
    } else if contains_part(&m, &chars_of("NOT_FOUND")) {
        404
    } else if contains_part(&m, &chars_of("CONFLICT")) {
        409
    } else if contains_part(&m, &chars_of("QUEUE_FULL")) {
        429
    } else {
        400
    }
}

/// The token of an `Authorization` header: the text after `Bearer `, which
/// must be 64 bytes long.
pub open spec fn bearer_token(header: Option<Seq<char>>) -> Option<Seq<char>> {
    match header {
        Some(h) => if starts_with(h, "Bearer "@) && byte_len(h.skip("Bearer "@.len() as int)) == 64 {
            Some(h.skip("Bearer "@.len() as int))
        } else {
            None
        },
        None => None,
    }
}

/// The bearer token of a request, or `UNAUTHORIZED`.
pub fn bearer(header: Option<&str>) -> (r: Result<String, String>)
    ensures
        match bearer_token(match header {
            Some(h) => Some(h@),
            None => None,
        }) {
            Some(t) => r matches Ok(s) && s@ == t,
            None => r matches Err(e) && e@ == "UNAUTHORIZED"@,
        },
{
    proof {
        reveal_strlit("Bearer ");
    }
    let h = match header {
        None => {
            return Err(owned("UNAUTHORIZED"));
        },
        Some(h) => h,
    };
    let v = chars_of(h);
    if !has_prefix(&v, "Bearer ") {
        return Err(owned("UNAUTHORIZED"));
    }
    let rest = slice_chars(&v, 7, v.len());
    assert(rest@ =~= h@.skip("Bearer "@.len() as int));
    let token = string_of(&rest);
    if utf8_len(token.as_str()) != 64 {
        return Err(owned("UNAUTHORIZED"));
    }
    Ok(token)
}

/// Whether a request comes from the agent's owner: from the agent's own
/// address, with a token whose hex SHA-256 is the stored owner hash.
pub open spec fn owner_ok(token: Seq<char>, peer: Seq<char>, address: Seq<char>, owner_hash: Seq<char>) -> bool {
    peer == address && vstd::utf8::encode_utf8(
        hex_text(sha256(vstd::utf8::encode_utf8(token))),
    ) == vstd::utf8::encode_utf8(owner_hash)
}

/// The owner check of the owner endpoints: the bearer token, then the
/// peer address and the owner hash, compared in constant time.
pub fn check_owner(header: Option<&str>, peer: &str, address: &str, owner_hash: &str) -> (r: Result<(), String>)
    ensures
        match bearer_token(match header {
            Some(h) => Some(h@),
            None => None,
        }) {
            None => r matches Err(e) && e@ == "UNAUTHORIZED"@,
            Some(t) => if owner_ok(t, peer@, address@, owner_hash@) {
                r is Ok
            } else {
                r matches Err(e) && e@ == "UNAUTHORIZED_OWNER"@
            },
        },
{
    let token = match bearer(header) {
        Err(e) => {
            return Err(e);
        },
        Ok(t) => t,
    };
    let hash = hex_digest(token.as_str().as_bytes());
    if !same_text(peer, address) || !bytes_equal_ct(hash.as_str().as_bytes(), owner_hash.as_bytes()) {
        return Err(owned("UNAUTHORIZED_OWNER"));
    }
    Ok(())
}

/// The check before work is taken on: a draining agent takes none.
pub fn check_accepting(accepting: bool) -> (r: Result<(), String>)
    ensures
        r is Ok <==> accepting,
        r matches Err(e) ==> e@ == "AGENT_DRAINING"@,
{
    if accepting {
        Ok(())
    } else {
        Err(owned("AGENT_DRAINING"))
    }
}

/// Why a submission is refused before its directory is looked at: the
/// agent is draining, the request is invalid or too large, or it is
/// addressed to another agent or node.
pub open spec fn submission_problem(accepting: bool, r: RemoteRequest, os: Seq<char>, encoded_len: usize, identity: TargetIdentity) -> Option<Seq<char>> {
    if !accepting {
        Some("AGENT_DRAINING"@)
    } else if request_problem(r@, os) is Some {
        request_problem(r@, os)
    } else if encoded_len > MAX_REQUEST_BYTES {
        Some("REQUEST_LIMIT"@)
    } else if !same_target(r.target, identity) {
        Some("TARGET_CHANGED"@)
    } else {
        None
    }
}

/// The checks a submission passes before its working directory is
/// resolved: `encoded_len` is the length of the request's JSON encoding.
pub fn check_submission(accepting: bool, request: &RemoteRequest, os: &str, encoded_len: usize, identity: &TargetIdentity) -> (r: Result<(), String>)
    ensures
        match submission_problem(accepting, *request, os@, encoded_len, *identity) {
            None => r is Ok,
            Some(p) => r matches Err(e) && e@ == p,
        },
{
    check_accepting(accepting)?;
    request.validate(os, encoded_len)?;
    if !request.target.same_as(identity) {
        return Err(owned("TARGET_CHANGED"));
    }
    Ok(())
}

/// The interpreters offered on `os`, in the agent's order.
pub open spec fn offered_on(os: Seq<char>) -> Seq<Interpreter> {
    seq![
        Interpreter::Powershell,
        Interpreter::Pwsh,
        Interpreter::Sh,
        Interpreter::Bash,
        Interpreter::Zsh,
    ].filter(|i: Interpreter| interpreter_runs_on(i, os))
}

/// The interpreters that run on `os`; the agent then keeps those whose
/// program it finds.
pub fn interpreters_for(os: &str) -> (r: Vec<Interpreter>)
    ensures
        r@ == offered_on(os@),
{
    let all = vec![
        Interpreter::Powershell,
        Interpreter::Pwsh,
        Interpreter::Sh,
        Interpreter::Bash,
        Interpreter::Zsh,
    ];
    let mut out: Vec<Interpreter> = Vec::new();
    let mut i: usize = 0;
    while i < all.len()
        invariant
            i <= all.len(),
            all@ == seq![
                Interpreter::Powershell,
                Interpreter::Pwsh,
                Interpreter::Sh,
                Interpreter::Bash,
                Interpreter::Zsh,
            ],
            out@ == all@.take(i as int).filter(|x: Interpreter| interpreter_runs_on(x, os@)),
        decreases all.len() - i,
    {
        let x = all[i];
        assert(all@.take(i + 1).drop_last() =~= all@.take(i as int));
        reveal(Seq::filter);
        if x.compatible(os) {
            out.push(x);
        }
        i += 1;
    }
    assert(all@.take(5) =~= all@);
    out
}

/// Whether a script's interpreter is among those the agent offers.
pub open spec fn interpreter_offered(e: ExecutionView, available: Seq<Interpreter>) -> bool {
    match e {
        ExecutionView::Script { interpreter, .. } => available.contains(interpreter),
        ExecutionView::Exec { .. } => true,
    }
}

/// The check that a script names an interpreter the agent offers.
#[verifier::loop_isolation(false)]
pub fn check_interpreter(execution: &Execution, available: &Vec<Interpreter>) -> (r: Result<(), String>)
    ensures
        r is Ok <==> interpreter_offered(execution@, available@),
        r matches Err(e) ==> e@ == "INTERPRETER_NOT_AVAILABLE"@,
{
    match execution {
        Execution::Exec { .. } => Ok(()),
        Execution::Script { interpreter, .. } => {
            let mut i: usize = 0;
            while i < available.len()
                invariant
                    i <= available.len(),
                    forall|k: int| 0 <= k < i ==> available@[k] != *interpreter,
                decreases available.len() - i,
            {
                if available[i] == *interpreter {
                    assert(available@[i as int] == *interpreter);
                    return Ok(());
                }
                i += 1;
            }
            Err(owned("INTERPRETER_NOT_AVAILABLE"))
        },
    }
}

/// A task as its controller sees it: an unfinished task whose id the
/// runner's fault message names is shown as needing recovery, with the
/// fault as its error.
pub open spec fn shown_task(t: TaskState, fault: Option<Seq<char>>) -> TaskState {
    match fault {
        Some(f) => if !is_terminal(t.state) && has_part(f, t.id) {
            TaskState { state: RemoteState::RecoveryRequired, error: Some(f), ..t }
        } else {
            t
        },
        None => t,
    }
}

/// The task as it is shown, with the runner's fault (if any) applied.
pub fn with_fault(task: RemoteTask, fault: Option<&str>) -> (r: RemoteTask)
    ensures
        r@ == shown_task(task@, match fault {
            Some(f) => Some(f@),
            None => None,
        }),
{
    match fault {
        None => task,
        Some(f) => {
            if !task.state.terminal() && contains_part(&chars_of(f), &chars_of(task.id.as_str())) {
                let mut t = task;
                t.state = RemoteState::RecoveryRequired;
                t.error = Some(owned(f));
                t
            } else {
                task
            }
        },
    }
}

/// The entity tag of a result file: its SHA-256 in quotes.
pub fn entity_tag(sha256_hex: &str) -> (r: String)
    ensures
        r@ == seq!['"'] + sha256_hex@ + seq!['"'],
{
    let mut s = owned("\"");
    crate::text::push_str(&mut s, sha256_hex);
    crate::text::push_str(&mut s, "\"");
    proof {
        reveal_strlit("\"");
    }
    assert(s@ =~= seq!['"'] + sha256_hex@ + seq!['"']);
    s
}

/// What the owner is shown about the agent.
#[derive(Debug, Clone)]
pub struct OwnerStatus {
    pub capabilities: AgentCapabilities,
    pub active_tasks: i64,
    pub waiting_tasks: i64,
    pub fault: Option<String>,
    pub controllers: Vec<AuthorizedController>,
}

/// The owner's request to stop the agent: drain, or abort running work.
#[derive(Debug, Clone, Copy)]
pub struct StopRequest {
    pub abort: bool,
}

/// A runner fault is shown only on unfinished tasks it names: a finished
/// task is shown as stored, and a task shown as needing recovery was
/// unfinished and named by the fault.
pub proof fn faults_never_rewrite_finished_tasks(t: TaskState, fault: Option<Seq<char>>)
    ensures
        is_terminal(t.state) ==> shown_task(t, fault) == t,
        shown_task(t, fault) != t ==> (fault matches Some(f) && !is_terminal(t.state) && has_part(f, t.id)
            && shown_task(t, fault).state == RemoteState::RecoveryRequired),
{
}

} // verus!
