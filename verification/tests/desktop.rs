use tailtask::access::PairResponse;
use tailtask::access::PairingSession;
use tailtask::controller::{RemoteConnection, RemoteHistory};
use tailtask::desktop::{
    already_accepted, artifacts_path, bind_address, cancel_path, check_autostart, check_controller_id,
    check_offer_node, check_offer_size, check_paired_identity, check_reported_target, confirm_target,
    credential_reference, event_cursor, events_path, find_artifact, local_config, local_device,
    paired_connection, remote_task_id, results_ready, revoke_path, save_name, task_path, AGENT_PORT,
};
use tailtask::environment::EnvironmentMap;
use tailtask::identity::PairingOffer;
use tailtask::model::{Device, NetworkSnapshot};
use tailtask::remote_model::{Artifact, Execution, RemoteRequest, TargetIdentity};

fn device(node: &str, addresses: &[&str], is_self: bool) -> Device {
    Device {
        node_id: node.into(),
        name: "d".into(),
        dns_name: String::new(),
        os: "linux".into(),
        addresses: addresses.iter().map(|a| a.to_string()).collect(),
        online: None,
        is_self,
        last_seen: None,
        alias: String::new(),
        favorite: false,
        observed_at: "t".into(),
        visible: true,
    }
}

fn snapshot(devices: Vec<Device>) -> NetworkSnapshot {
    NetworkSnapshot {
        state: "ready".into(),
        version: "1".into(),
        network: "n".into(),
        context_id: "network".into(),
        observed_at: "t".into(),
        devices,
        error: None,
    }
}

fn offer() -> PairingOffer {
    PairingOffer {
        version: 1,
        identity: TargetIdentity { agent_id: "agent".into(), node_id: "node".into() },
        address: "100.64.0.1".into(),
        port: 47321,
        certificate_pem: "pem".into(),
        fingerprint: "fp".into(),
        session: PairingSession::new("s".into(), "secret".into(), 0),
    }
}

#[test]
fn targets_are_confirmed_in_the_live_network() {
    let s = snapshot(vec![device("node", &["100.64.0.1"], false)]);
    assert!(confirm_target(&s, "network", "node", "100.64.0.1").is_ok());
    assert!(confirm_target(&s, "network", "node", "100.64.0.2").unwrap_err().starts_with("TARGET_CHANGED"));
    assert!(confirm_target(&s, "network", "other", "100.64.0.1").is_err());
    assert!(confirm_target(&s, "old", "node", "100.64.0.1").unwrap_err().starts_with("CONTEXT_CHANGED"));
}

#[test]
fn pairing_information_is_checked_and_kept_by_node() {
    assert!(check_offer_size(32768).is_ok());
    assert_eq!(check_offer_size(32769).unwrap_err(), "PAIRING_INFORMATION_LIMIT");
    assert!(check_offer_node(&offer(), "node").is_ok());
    assert_eq!(check_offer_node(&offer(), "other").unwrap_err(), "PAIRING_NODE_MISMATCH");
    let answer = PairResponse { controller_id: "ctl".into(), token: "x".repeat(64) };
    let reference = credential_reference("r1");
    assert_eq!(reference, "controller-r1");
    let kept = paired_connection(Some("old-id".into()), "new-id".into(), "network".into(), "node".into(), offer(), &answer, reference.clone());
    assert_eq!(kept.id, "old-id");
    assert_eq!((kept.agent_id.as_str(), kept.controller_id.as_str(), kept.name.as_str()), ("agent", "ctl", "已配对设备"));
    let fresh = paired_connection(None, "new-id".into(), "network".into(), "node".into(), offer(), &answer, reference);
    assert_eq!(fresh.id, "new-id");
    assert!(check_paired_identity(&offer().identity, &fresh).is_ok());
    let other = TargetIdentity { agent_id: "x".into(), node_id: "node".into() };
    assert_eq!(check_paired_identity(&other, &fresh).unwrap_err(), "PAIRING_IDENTITY_MISMATCH");
    assert_eq!(check_reported_target(&other, &offer().identity).unwrap_err(), "TARGET_CHANGED");
}

fn connection() -> RemoteConnection {
    paired_connection(None, "c".into(), "network".into(), "node".into(), offer(), &PairResponse { controller_id: "ctl".into(), token: String::new() }, "ref".into())
}

fn history(state: &str, remote: Option<&str>) -> RemoteHistory {
    RemoteHistory {
        id: "h".into(),
        connection_id: "c".into(),
        target: connection(),
        request: RemoteRequest {
            request_id: "019147f5-5a8d-42aa-8110-f224436657e0".into(),
            name: "n".into(),
            target: offer().identity,
            cwd: "/w".into(),
            execution: Execution::Exec { program: "/bin/true".into(), args: vec![] },
            timeout_seconds: 1,
            environment: EnvironmentMap::new(),
            result_directory: None,
        },
        submission_state: state.into(),
        remote_id: remote.map(|s| s.to_string()),
        task: None,
        sync_error: None,
        created_at: "t".into(),
        synced_at: None,
    }
}

#[test]
fn submissions_and_paths() {
    assert!(already_accepted(&history("accepted", Some("r"))));
    assert!(!already_accepted(&history("submission_unknown", None)));
    assert_eq!(remote_task_id(&history("accepted", Some("r")), "X").unwrap(), "r");
    assert_eq!(remote_task_id(&history("prepared", None), "SUBMISSION_UNKNOWN: 尚未确认远端任务 ID").unwrap_err(), "SUBMISSION_UNKNOWN: 尚未确认远端任务 ID");
    assert_eq!((event_cursor(None), event_cursor(Some(-3)), event_cursor(Some(9))), (0, 0, 9));
    assert_eq!(task_path("r"), "/v1/tasks/r");
    assert_eq!(events_path("r", 12), "/v1/tasks/r/events?after=12");
    assert_eq!(artifacts_path("r"), "/v1/tasks/r/artifacts");
    assert_eq!(cancel_path("r"), "/v1/tasks/r/cancel");
    assert!(results_ready("complete") && !results_ready("pending"));
    assert_eq!(revoke_path("c1"), "/owner/controllers/c1/revoke");
    assert!(check_controller_id("019147f5-5a8d-42aa-8110-f224436657e0").is_ok());
    assert_eq!(check_controller_id("x").unwrap_err(), "INVALID_CONTROLLER_ID");
}

#[test]
fn result_files_are_found_and_named() {
    let a = Artifact { id: "a".into(), task_id: "t".into(), name: "out/子目录/结果.txt".into(), size: 1, sha256: String::new() };
    let b = Artifact { id: "b".into(), ..a.clone() };
    assert_eq!(find_artifact(vec![a.clone(), b.clone()], "b").unwrap().id, "b");
    assert_eq!(find_artifact(vec![a.clone()], "z").unwrap_err(), "ARTIFACT_NOT_FOUND");
    assert_eq!(save_name(&a.name), "结果.txt");
    assert_eq!(save_name("plain"), "plain");
}

#[test]
fn the_local_agent_uses_this_device() {
    let s = snapshot(vec![device("peer", &["100.64.0.9"], false), device("me", &["fd7a:115c:a1e0::1", "100.64.0.2"], true)]);
    assert_eq!(local_device(&s).unwrap(), 1);
    let mut down = s.clone();
    down.state = "stopped".into();
    assert_eq!(local_device(&down).unwrap_err(), "TAILSCALE_NOT_READY");
    let alone = snapshot(vec![device("peer", &[], false)]);
    assert_eq!(local_device(&alone).unwrap_err(), "LOCAL_NODE_UNCONFIRMED");
    let addresses = s.devices[1].addresses.clone();
    assert_eq!(bind_address(&addresses, &vec![false, true]).unwrap(), "100.64.0.2");
    assert_eq!(bind_address(&addresses, &vec![false, false]).unwrap(), "fd7a:115c:a1e0::1");
    assert_eq!(bind_address(&vec![], &vec![]).unwrap_err(), "LOCAL_ADDRESS_MISSING");
    let c = local_config(vec!["/w".into()], 2, "network".into(), "me".into(), "100.64.0.2".into());
    assert_eq!((c.port, AGENT_PORT), (47321, 47321));
    assert_eq!(check_autostart(true, false).unwrap_err(), "AGENT_NOT_CONFIGURED: 请先配置并开启执行端");
    assert!(check_autostart(false, false).is_ok() && check_autostart(true, true).is_ok());
}
