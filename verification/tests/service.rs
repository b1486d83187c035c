use tailtask::agent_tasks::RemoteTask;
use tailtask::environment::EnvironmentMap;
use tailtask::remote_model::{hex_digest, Execution, Interpreter, PowerShellPolicy, RemoteRequest, RemoteState, TargetIdentity};
use tailtask::service::{
    bearer, check_accepting, check_interpreter, check_owner, check_submission, entity_tag, error_status,
    interpreters_for, with_fault,
};

fn request() -> RemoteRequest {
    RemoteRequest {
        request_id: "019147f5-5a8d-42aa-8110-f224436657e0".into(),
        name: "任务".into(),
        target: TargetIdentity { agent_id: "119147f5-5a8d-42aa-8110-f224436657e0".into(), node_id: "node".into() },
        cwd: "/w".into(),
        execution: Execution::Exec { program: "/bin/echo".into(), args: vec![] },
        timeout_seconds: 10,
        environment: EnvironmentMap::new(),
        result_directory: None,
    }
}

#[test]
fn errors_answer_with_their_status() {
    assert_eq!(error_status("UNAUTHORIZED"), 401);
    assert_eq!(error_status("UNAUTHORIZED_OWNER"), 401);
    assert_eq!(error_status("TASK_NOT_FOUND"), 404);
    assert_eq!(error_status("IDEMPOTENCY_CONFLICT"), 409);
    assert_eq!(error_status("QUEUE_FULL"), 429);
    assert_eq!(error_status("INVALID_TIMEOUT"), 400);
    assert_eq!(error_status("UNAUTHORIZED NOT_FOUND"), 401);
}

#[test]
fn bearer_tokens_have_a_fixed_shape() {
    let token = "a".repeat(64);
    assert_eq!(bearer(Some(&format!("Bearer {token}"))).unwrap(), token);
    assert_eq!(bearer(Some(&format!("bearer {token}"))).unwrap_err(), "UNAUTHORIZED");
    assert!(bearer(Some(&format!("Bearer {}", "a".repeat(63)))).is_err());
    assert!(bearer(None).is_err());
}

#[test]
fn only_the_owner_at_the_agent_address_passes() {
    let token = "b".repeat(64);
    let header = format!("Bearer {token}");
    let hash = hex_digest(token.as_bytes());
    assert!(check_owner(Some(&header), "100.64.0.1", "100.64.0.1", &hash).is_ok());
    assert_eq!(check_owner(Some(&header), "100.64.0.2", "100.64.0.1", &hash).unwrap_err(), "UNAUTHORIZED_OWNER");
    assert_eq!(check_owner(Some(&header), "100.64.0.1", "100.64.0.1", &"0".repeat(64)).unwrap_err(), "UNAUTHORIZED_OWNER");
    assert_eq!(check_owner(None, "100.64.0.1", "100.64.0.1", &hash).unwrap_err(), "UNAUTHORIZED");
}

#[test]
fn submissions_are_admitted_in_order() {
    let r = request();
    let me = r.target.clone();
    assert!(check_submission(true, &r, "linux", 100, &me).is_ok());
    assert_eq!(check_submission(false, &r, "linux", 100, &me).unwrap_err(), "AGENT_DRAINING");
    let other = TargetIdentity { agent_id: me.agent_id.clone(), node_id: "elsewhere".into() };
    assert_eq!(check_submission(true, &r, "linux", 100, &other).unwrap_err(), "TARGET_CHANGED");
    assert_eq!(check_submission(true, &r, "linux", 1 << 20, &me).unwrap_err(), "REQUEST_LIMIT");
    assert!(check_accepting(true).is_ok());
}

#[test]
fn interpreters_follow_the_platform() {
    assert_eq!(interpreters_for("windows"), vec![Interpreter::Powershell, Interpreter::Pwsh]);
    assert_eq!(interpreters_for("linux"), vec![Interpreter::Pwsh, Interpreter::Sh, Interpreter::Bash, Interpreter::Zsh]);
    assert!(interpreters_for("plan9").iter().all(|i| *i == Interpreter::Pwsh));
    let script = Execution::Script { interpreter: Interpreter::Zsh, source: "x".into(), powershell_policy: PowerShellPolicy::Inherit };
    assert_eq!(check_interpreter(&script, &vec![Interpreter::Sh]).unwrap_err(), "INTERPRETER_NOT_AVAILABLE");
    assert!(check_interpreter(&script, &vec![Interpreter::Zsh]).is_ok());
    assert!(check_interpreter(&request().execution, &vec![]).is_ok());
}

#[test]
fn faults_show_only_on_unfinished_named_tasks() {
    let task = RemoteTask::queued("t-1".into(), "c".into(), request(), "now".into());
    let shown = with_fault(task.clone(), Some("runner stopped on t-1"));
    assert_eq!(shown.state, RemoteState::RecoveryRequired);
    assert_eq!(shown.error.as_deref(), Some("runner stopped on t-1"));
    let other = with_fault(task.clone(), Some("runner stopped on t-2"));
    assert_eq!(other.state, RemoteState::Queued);
    let (done, _) = task.transition(&[RemoteState::Queued], RemoteState::Cancelled, None, "", "x".into());
    assert_eq!(with_fault(done, Some("t-1")).state, RemoteState::Cancelled);
    assert_eq!(entity_tag("abc"), "\"abc\"");
}
