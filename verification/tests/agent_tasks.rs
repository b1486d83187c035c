use tailtask::agent_tasks::{admission_decision, RemoteTask};
use tailtask::environment::{compare_text, EnvironmentMap};
use tailtask::remote_model::{Execution, RemoteRequest, RemoteState, TargetIdentity};

fn request(results: bool) -> RemoteRequest {
    RemoteRequest {
        request_id: "019147f5-5a8d-42aa-8110-f224436657e0".into(),
        name: "n".into(),
        target: TargetIdentity { agent_id: "119147f5-5a8d-42aa-8110-f224436657e0".into(), node_id: "node".into() },
        cwd: "/w".into(),
        execution: Execution::Exec { program: "/bin/true".into(), args: vec![] },
        timeout_seconds: 1,
        environment: EnvironmentMap::new(),
        result_directory: if results { Some("out".into()) } else { None },
    }
}

#[test]
fn admission_returns_retries_and_respects_the_queue() {
    assert_eq!(admission_decision(false, None, "h", 0).unwrap_err(), "UNAUTHORIZED");
    assert_eq!(admission_decision(true, Some("h"), "h", 100), Ok(false));
    assert_eq!(admission_decision(true, Some("h"), "g", 0).unwrap_err(), "IDEMPOTENCY_CONFLICT");
    assert_eq!(admission_decision(true, None, "h", 99), Ok(true));
    assert_eq!(admission_decision(true, None, "h", 100).unwrap_err(), "QUEUE_FULL");
}

#[test]
fn tasks_move_through_their_states_once() {
    let t = RemoteTask::queued("t".into(), "c".into(), request(true), "now".into());
    assert_eq!((t.state, t.result_status.as_str()), (RemoteState::Queued, "pending"));
    let (t, claimed) = t.claim("s".into());
    assert!(claimed);
    assert_eq!(t.state, RemoteState::Starting);
    let (t2, again) = t.clone().claim("x".into());
    assert!(!again);
    assert_eq!(t2.state, RemoteState::Starting);
    let (t, moved) = t.transition(&[RemoteState::Starting], RemoteState::Running, None, "", "r".into());
    assert!(moved);
    let (t, moved) = t.transition(&[RemoteState::Running], RemoteState::Failed, Some(3), "boom", "f".into());
    assert!(moved);
    assert_eq!((t.exit_code, t.error.as_deref(), t.finished_at.as_deref()), (Some(3), Some("boom"), Some("f")));
    let (t, moved) = t.transition(&[RemoteState::Failed], RemoteState::Running, None, "", "x".into());
    assert!(!moved);
    assert_eq!(t.state, RemoteState::Failed);
}

#[test]
fn recovery_never_replays_started_tasks() {
    let queued = RemoteTask::queued("q".into(), "c".into(), request(false), "now".into());
    let (same, notes) = queued.clone().recover("later".into());
    assert_eq!(same.state, RemoteState::Queued);
    assert!(notes.is_empty());
    let (running, _) = queued.claim("s".into());
    let (after, notes) = running.recover("later".into());
    assert_eq!(after.state, RemoteState::RecoveryRequired);
    assert_eq!(notes.len(), 1);
    assert_eq!(notes[0].kind, "recovery_required");
    let pending = RemoteTask::queued("p".into(), "c".into(), request(true), "now".into());
    let (pending, _) = pending.claim("s".into());
    let (pending, _) = pending.transition(&[RemoteState::Starting], RemoteState::Running, None, "", "r".into());
    let (done, _) = pending.transition(&[RemoteState::Running], RemoteState::Succeeded, Some(0), "", "f".into());
    assert_eq!(done.result_status, "pending");
    let (after, notes) = done.recover("later".into());
    assert_eq!(after.result_status, "incomplete");
    assert_eq!(notes.len(), 1);
    assert_eq!(notes[0].kind, "results");
    let (twice, more) = after.recover("again".into());
    assert_eq!(twice.result_status, "incomplete");
    assert!(more.is_empty());
}

#[test]
fn environment_names_stay_sorted_and_unique() {
    let mut env = EnvironmentMap::new();
    assert!(env.is_empty());
    assert_eq!(env.insert("b".into(), "2".into()), None);
    assert_eq!(env.insert("a".into(), "1".into()), None);
    assert_eq!(env.insert("b".into(), "3".into()), Some("2".to_string()));
    assert_eq!(env.len(), 2);
    assert_eq!(env.pairs(), &vec![("a".to_string(), "1".to_string()), ("b".to_string(), "3".to_string())]);
    env.clear();
    assert!(env.is_empty());
    assert!(compare_text("a", "b") < 0 && compare_text("b", "a") > 0 && compare_text("a", "a") == 0);
}

#[test]
fn revoked_controllers_cannot_resubmit_stored_requests() {
    assert_eq!(admission_decision(false, Some("h"), "h", 0).unwrap_err(), "UNAUTHORIZED");
    assert_eq!(admission_decision(false, Some("other"), "h", 100).unwrap_err(), "UNAUTHORIZED");
}
