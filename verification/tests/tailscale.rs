use tailtask::json::Json;
use tailtask::tailscale::{check_output_size, command_failed, failed, inspect_outcome, parse, parse_at};

#[test]
fn same_names_are_distinct_and_missing_online_is_unknown() {
    let snapshot = parse(br#"{"BackendState":"Running","CurrentTailnet":{"Name":"example","MagicDNSSuffix":"test.ts.net"},"Self":{"ID":"self","UserID":1},"Peer":{"a":{"ID":"one","HostName":"same","Online":true},"b":{"ID":"two","HostName":"same"}}}"#).unwrap();
    assert_eq!(snapshot.devices.len(), 3);
    assert_eq!(snapshot.devices[2].online, None);
    assert_ne!(snapshot.devices[1].node_id, snapshot.devices[2].node_id);
    assert!(!snapshot.context_id.is_empty());
}

#[test]
fn rejects_unknown_structure_and_does_not_invent_context() {
    assert!(parse(b"{}").is_err());
    let snapshot = parse(br#"{"BackendState":"NeedsLogin"}"#).unwrap();
    assert!(snapshot.context_id.is_empty());
    assert_eq!(snapshot.state, "login_required");
}

#[test]
fn contexts_are_required_and_state_variants_are_explicit() {
    let incomplete = parse(br#"{"BackendState":"Running","Self":{"ID":"x"}}"#).unwrap();
    assert_eq!(incomplete.state, "unknown");
    assert!(incomplete.devices.is_empty());
    assert!(incomplete.require_context("anything").is_err());
    for (backend, expected) in [
        ("NeedsMachineAuth", "approval_required"),
        ("Stopped", "stopped"),
        ("Starting", "starting"),
    ] {
        let data = format!("{{\"BackendState\":\"{backend}\",\"UnknownFutureField\":true}}");
        assert_eq!(parse(data.as_bytes()).unwrap().state, expected);
    }
    let valid = parse(br#"{"BackendState":"Running","Self":{"ID":"x","UserID":1},"CurrentTailnet":{"Name":"network"}}"#).unwrap();
    assert!(valid.require_context(&valid.context_id).is_ok());
    assert!(valid.require_context("old-account").is_err());
}

#[test]
fn context_is_the_hash_of_the_identity_text() {
    let s = parse_at(
        br#"{"BackendState":"Running","Self":{"ID":"self","UserID":1},"CurrentTailnet":{"Name":"n","MagicDNSSuffix":"d"}}"#,
        "t".into(),
    )
    .unwrap();
    assert_eq!(s.context_id, tailtask::remote_model::hex_digest_text("self\0d\0n\01"));
    let missing_user = parse_at(br#"{"BackendState":"Running","Self":{"ID":"self"},"CurrentTailnet":{"Name":"n"}}"#, "t".into()).unwrap();
    assert_eq!(missing_user.context_id, tailtask::remote_model::hex_digest_text("self\0\0n\0null"));
}

#[test]
fn devices_carry_their_status_fields() {
    let s = parse_at(
        br#"{"BackendState":"Running","Version":"1.2","CurrentTailnet":{"Name":"n"},"Self":{"ID":"me","DNSName":"me.ts.net.","OS":"linux","TailscaleIPs":["100.64.0.1",7,"fd7a:115c:a1e0::1"],"Online":true,"LastSeen":"yesterday"},"Peer":{"x":{"ID":"","HostName":"nameless"},"y":{"ID":"me"},"z":{"HostName":"noid"}}}"#,
        "at".into(),
    )
    .unwrap();
    assert_eq!(s.state, "ready");
    assert_eq!(s.version, "1.2");
    assert_eq!(s.network, "n");
    assert_eq!(s.devices.len(), 1);
    let d = &s.devices[0];
    assert!(d.is_self && d.visible && !d.favorite);
    assert_eq!(d.dns_name, "me.ts.net");
    assert_eq!(d.name, "未命名设备");
    assert_eq!(d.os, "linux");
    assert_eq!(d.addresses, vec!["100.64.0.1".to_string(), "fd7a:115c:a1e0::1".to_string()]);
    assert_eq!(d.online, Some(true));
    assert_eq!(d.last_seen.as_deref(), Some("yesterday"));
    assert_eq!(d.observed_at, "at");
    assert_eq!(s.observed_at, "at");
    assert_eq!(s.error, None);
}

#[test]
fn unready_networks_list_no_devices() {
    let s = parse_at(br#"{"BackendState":"Stopped","Self":{"ID":"me"},"CurrentTailnet":{"Name":"n"}}"#, "t".into()).unwrap();
    assert_eq!(s.state, "stopped");
    assert!(s.devices.is_empty());
    assert!(!s.context_id.is_empty());
    let odd = parse_at(br#"{"BackendState":"Paused"}"#, "t".into()).unwrap();
    assert_eq!(odd.state, "unknown");
    let incomplete = parse_at(br#"{"BackendState":"Running","Self":{"ID":"me"}}"#, "t".into()).unwrap();
    assert_eq!(incomplete.error.as_deref(), Some("网络身份不完整，未使用旧账号缓存"));
}

#[test]
fn parse_errors_name_the_problem() {
    assert_eq!(parse(b"not json").unwrap_err(), "无法识别 Tailscale 状态格式");
    assert_eq!(parse(br#"{"BackendState":3}"#).unwrap_err(), "缺少 Tailscale BackendState");
    let big = vec![b' '; 16 * 1024 * 1024 + 1];
    assert_eq!(parse(&big).unwrap_err(), "状态数据超过大小限制");
}

#[test]
fn failures_become_snapshots_without_identity() {
    let f = failed("not_installed", "尚未发现官方 Tailscale 客户端", "t".into());
    assert_eq!(f.state, "not_installed");
    assert!(f.context_id.is_empty() && f.devices.is_empty());
    assert_eq!(f.error.as_deref(), Some("尚未发现官方 Tailscale 客户端"));
    assert!(f.require_context("").is_err());
    let denied = command_failed("Access DENIED by policy", "t".into());
    assert_eq!(denied.state, "permission_denied");
    let down = command_failed(&"x".repeat(900), "t".into());
    assert_eq!(down.state, "service_unavailable");
    assert_eq!(down.error.unwrap().chars().count(), 800);
    let unread = inspect_outcome(Err("STATUS_TIMEOUT: Tailscale 状态读取超时".into()), "t".into());
    assert_eq!(unread.state, "service_unavailable");
    let bad = inspect_outcome(Ok((true, b"[]".to_vec(), String::new())), "t".into());
    assert_eq!(bad.state, "unknown");
    let ok = inspect_outcome(Ok((true, br#"{"BackendState":"NeedsLogin"}"#.to_vec(), String::new())), "t".into());
    assert_eq!(ok.state, "login_required");
    let exit = inspect_outcome(Ok((false, vec![], "permission denied".into())), "t".into());
    assert_eq!(exit.state, "permission_denied");
    assert_eq!(check_output_size(129, 128).unwrap_err(), "OUTPUT_LIMIT: 状态数据超过大小限制");
    assert!(check_output_size(128, 128).is_ok());
}

#[test]
fn json_values_read_as_plain_data() {
    let doc = Json::Object(vec![
        ("a".into(), Json::Str("x".into())),
        ("a".into(), Json::Bool(true)),
        ("n".into(), Json::Number(serde_json::Number::from(5))),
    ]);
    assert!(matches!(tailtask::json::member(&doc, "a"), Some(Json::Str(s)) if s == "x"));
    assert!(tailtask::json::member(&doc, "b").is_none());
    assert_eq!(tailtask::json::member_str(Some(&doc), "a").as_deref(), Some("x"));
    assert!(tailtask::json::member_str(Some(&doc), "n").is_none());
    let list = Json::Array(vec![Json::Str("p".into()), Json::Null, Json::Str("q".into())]);
    assert_eq!(tailtask::json::strings_of(Some(&list)), vec!["p".to_string(), "q".to_string()]);
    assert!(tailtask::json::strings_of(None).is_empty());
}

#[test]
fn no_device_is_listed_without_a_node_id() {
    let s = parse_at(
        br#"{"BackendState":"Running","CurrentTailnet":{"Name":"n"},"Self":{"ID":"me"},"Peer":{"a":{"ID":""},"b":{"HostName":"x"},"c":{"ID":"peer"}}}"#,
        "at".into(),
    )
    .unwrap();
    assert_eq!(s.devices.len(), 2);
    assert!(s.devices.iter().all(|d| !d.node_id.is_empty()));
}
