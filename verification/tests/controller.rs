use tailtask::controller::{
    check_answer, check_artifacts, check_connection_id, check_events, check_prepare, event_page, mark_unknown_state,
    page_start, prepare_decision, record_answer, RemoteConnection, RemoteHistory,
};
use tailtask::agent_tasks::RemoteTask;
use tailtask::environment::EnvironmentMap;
use tailtask::remote_model::{Artifact, Execution, RemoteEvent, RemoteRequest, TargetIdentity};

const AGENT: &str = "119147f5-5a8d-42aa-8110-f224436657e0";

fn connection(id: &str) -> RemoteConnection {
    RemoteConnection {
        id: id.into(),
        context_id: "network".into(),
        node_id: "node".into(),
        agent_id: AGENT.into(),
        address: "100.64.0.1".into(),
        port: 47321,
        certificate_pem: "test-certificate".into(),
        fingerprint: "test-fingerprint".into(),
        controller_id: "controller".into(),
        credential_ref: "vault-reference-only".into(),
        name: "测试设备".into(),
    }
}

fn request() -> RemoteRequest {
    RemoteRequest {
        request_id: "019147f5-5a8d-42aa-8110-f224436657e0".into(),
        name: "任务".into(),
        target: TargetIdentity { agent_id: AGENT.into(), node_id: "node".into() },
        cwd: "/w".into(),
        execution: Execution::Exec { program: "/bin/echo".into(), args: vec!["x".into()] },
        timeout_seconds: 10,
        environment: EnvironmentMap::new(),
        result_directory: Some("out".into()),
    }
}

fn history(remote_id: Option<&str>) -> RemoteHistory {
    RemoteHistory {
        id: "h".into(),
        connection_id: "c".into(),
        target: connection("c"),
        request: request(),
        submission_state: "prepared".into(),
        remote_id: remote_id.map(|s| s.to_string()),
        task: None,
        sync_error: None,
        created_at: "t".into(),
        synced_at: None,
    }
}

fn artifact(id: &str, name: &str) -> Artifact {
    Artifact { id: id.into(), task_id: "task".into(), name: name.into(), size: 3, sha256: "a".repeat(64) }
}

#[test]
fn connection_ids_are_kept_and_lost_answers_stay_unknown() {
    assert!(check_connection_id(&vec![connection("a")], &connection("a")).is_ok());
    assert!(check_connection_id(&vec![connection("a")], &connection("b")).unwrap_err().starts_with("CONNECTION_ID_MISMATCH"));
    assert_eq!(mark_unknown_state("prepared"), "submission_unknown");
    assert_eq!(mark_unknown_state("submission_unknown"), "submission_unknown");
    assert_eq!(mark_unknown_state("accepted"), "accepted");
}

#[test]
fn preparation_checks_and_idempotency() {
    let c = connection("c");
    assert!(check_prepare(&request(), 100, &c).is_ok());
    let mut bad = request();
    bad.request_id = "x".into();
    assert_eq!(check_prepare(&bad, 100, &c).unwrap_err(), "INVALID_REQUEST_ID");
    assert_eq!(check_prepare(&request(), 400_000, &c).unwrap_err(), "REQUEST_LIMIT");
    let mut moved = request();
    moved.target.node_id = "other".into();
    assert_eq!(check_prepare(&moved, 100, &c).unwrap_err(), "TARGET_CHANGED");
    assert_eq!(prepare_decision(Some("h"), "h"), Ok(true));
    assert_eq!(prepare_decision(None, "h"), Ok(false));
    assert_eq!(prepare_decision(Some("h"), "g").unwrap_err(), "IDEMPOTENCY_CONFLICT");
}

#[test]
fn answers_must_describe_the_recorded_submission() {
    let task = RemoteTask::queued("task".into(), "controller".into(), request(), "t".into());
    assert!(check_answer(&history(None), &task).is_ok());
    assert!(check_answer(&history(Some("task")), &task).is_ok());
    assert_eq!(check_answer(&history(Some("other")), &task).unwrap_err(), "REMOTE_RESPONSE_MISMATCH");
    let mut changed = request();
    changed.cwd = "/elsewhere".into();
    let foreign = RemoteTask::queued("task".into(), "controller".into(), changed, "t".into());
    assert!(check_answer(&history(None), &foreign).is_err());
    let stranger = RemoteTask::queued("task".into(), "someone".into(), request(), "t".into());
    assert!(check_answer(&history(None), &stranger).is_err());
}

#[test]
fn events_and_result_lists_are_checked_before_caching() {
    let e = RemoteEvent { seq: 1, task_id: "task".into(), kind: "stdout".into(), text: "x".into(), occurred_at: "t".into() };
    assert!(check_events(Some("task"), &vec![e.clone()]).is_ok());
    assert_eq!(check_events(None, &vec![e.clone()]).unwrap_err(), "REMOTE_EVENT_MISMATCH");
    assert!(check_events(Some("task"), &vec![RemoteEvent { seq: 0, ..e.clone() }]).is_err());
    assert!(check_events(Some("task"), &vec![RemoteEvent { text: "x".repeat(65537), ..e }]).is_err());
    let a = artifact("019147f5-5a8d-42aa-8110-f224436657e0", "out/a.txt");
    let b = artifact("219147f5-5a8d-42aa-8110-f224436657e0", "out/b.txt");
    assert!(check_artifacts(Some("task"), &vec![a.clone(), b.clone()]).is_ok());
    assert_eq!(check_artifacts(None, &vec![]).unwrap_err(), "REMOTE_TASK_NOT_CONFIRMED");
    assert_eq!(check_artifacts(Some("task"), &vec![a.clone(), a.clone()]).unwrap_err(), "REMOTE_ARTIFACT_MISMATCH");
    assert!(check_artifacts(Some("task"), &vec![Artifact { name: "../x".into(), ..b.clone() }]).is_err());
    assert!(check_artifacts(Some("task"), &vec![Artifact { sha256: "g".repeat(64), ..b.clone() }]).is_err());
    assert!(check_artifacts(Some("other"), &vec![b.clone()]).is_err());
    assert_eq!(check_artifacts(Some("task"), &vec![b.clone(); 101]).unwrap_err(), "REMOTE_ARTIFACT_LIMIT");
    let big = |id: &str| Artifact { size: 524288000, ..artifact(id, "big") };
    let three = vec![
        big("019147f5-5a8d-42aa-8110-f224436657e0"),
        big("219147f5-5a8d-42aa-8110-f224436657e0"),
        big("319147f5-5a8d-42aa-8110-f224436657e0"),
    ];
    assert_eq!(check_artifacts(Some("task"), &three).unwrap_err(), "REMOTE_ARTIFACT_LIMIT");
    assert_eq!((page_start(-5), page_start(7)), (0, 7));
}

#[test]
fn recorded_answers_accept_the_submission() {
    let mut h = history(None);
    h.submission_state = "submission_unknown".into();
    h.sync_error = Some("offline".into());
    let task = RemoteTask::queued("task".into(), "controller".into(), request(), "t".into());
    let recorded = record_answer(h, task.clone(), "now".into()).unwrap();
    assert_eq!(recorded.submission_state, "accepted");
    assert_eq!(recorded.remote_id.as_deref(), Some("task"));
    assert_eq!(recorded.task.as_ref().map(|t| t.id.as_str()), Some("task"));
    assert_eq!(recorded.sync_error, None);
    assert_eq!(recorded.synced_at.as_deref(), Some("now"));
    assert!(record_answer(recorded.clone(), task, "later".into()).is_ok());
    let wrong = RemoteTask::queued("task".into(), "other".into(), request(), "t".into());
    assert_eq!(record_answer(recorded, wrong, "later".into()).unwrap_err(), "REMOTE_RESPONSE_MISMATCH");
}

#[test]
fn cached_events_are_paged_in_order_without_repeats() {
    let ev = |seq: i64| RemoteEvent { seq, task_id: "task".into(), kind: "stdout".into(), text: format!("{seq}"), occurred_at: "t".into() };
    let cached = vec![ev(3), ev(1), ev(2), ev(3), ev(5)];
    let all: Vec<i64> = event_page(&cached, 0).iter().map(|e| e.seq).collect();
    assert_eq!(all, vec![1, 2, 3, 5]);
    let later: Vec<i64> = event_page(&cached, 2).iter().map(|e| e.seq).collect();
    assert_eq!(later, vec![3, 5]);
    assert_eq!(event_page(&cached, -7).len(), 4);
    let many: Vec<RemoteEvent> = (1..=250).rev().map(ev).collect();
    let page = event_page(&many, 0);
    assert_eq!(page.len(), 200);
    assert_eq!((page[0].seq, page[199].seq), (1, 200));
}
