use tailtask::access::PairingSession;
use tailtask::identity::{
    certificate_der, check_allowed_directory, check_offer, check_remote_address, check_work_directory, check_saved_endpoint, create_endpoint, is_routable, new_endpoint,
    offer_for, pinned_certificate, tailscale_address, AgentConfig, IpAddress,
};
use tailtask::model::{Device, NetworkSnapshot};
use tailtask::remote_model::hex_digest;

fn v4(a: u8, b: u8, c: u8, d: u8) -> IpAddress {
    IpAddress::V4([a, b, c, d])
}

fn v6(s: [u16; 8]) -> IpAddress {
    IpAddress::V6(s)
}

#[test]
fn only_tailnet_addresses_are_valid_bind_candidates() {
    for ip in [
        v4(0, 0, 0, 0),
        v4(127, 0, 0, 1),
        v4(192, 168, 1, 1),
        v4(100, 63, 0, 1),
        v4(100, 128, 0, 1),
        v6([0; 8]),
        v6([0, 0, 0, 0, 0, 0, 0, 1]),
    ] {
        assert!(!tailscale_address(ip));
    }
    for ip in [v4(100, 64, 0, 1), v4(100, 127, 255, 254), v6([0xfd7a, 0x115c, 0xa1e0, 0, 0, 0, 0, 1])] {
        assert!(tailscale_address(ip));
    }
}

fn config() -> AgentConfig {
    AgentConfig {
        allowed_directories: vec!["/srv/work".into()],
        concurrency: 1,
        port: 47321,
        context_id: "ctx".into(),
        node_id: "me".into(),
        address: "100.64.0.1".into(),
    }
}

fn snapshot() -> NetworkSnapshot {
    NetworkSnapshot {
        state: "ready".into(),
        version: "1".into(),
        network: "n".into(),
        context_id: "ctx".into(),
        observed_at: "t".into(),
        devices: vec![Device {
            node_id: "me".into(),
            name: "本机".into(),
            dns_name: String::new(),
            os: "linux".into(),
            addresses: vec!["100.64.0.1".into()],
            online: Some(true),
            is_self: true,
            last_seen: None,
            alias: String::new(),
            favorite: false,
            observed_at: "t".into(),
            visible: true,
        }],
        error: None,
    }
}

#[test]
fn agent_configuration_is_checked_in_order() {
    let ip = Some(v4(100, 64, 0, 1));
    assert!(config().check(ip, &snapshot(), "linux").is_ok());
    let mut c = config();
    c.concurrency = 5;
    assert_eq!(c.check(ip, &snapshot(), "linux").unwrap_err(), "INVALID_AGENT_CONFIGURATION");
    let mut c = config();
    c.allowed_directories = vec![];
    assert!(c.check(ip, &snapshot(), "linux").is_err());
    let mut c = config();
    c.port = 0;
    assert!(c.check(ip, &snapshot(), "linux").is_err());
    assert_eq!(config().check(None, &snapshot(), "linux").unwrap_err(), "INVALID_BIND_ADDRESS");
    assert!(config()
        .check(Some(v4(192, 168, 0, 1)), &snapshot(), "linux")
        .unwrap_err()
        .starts_with("INVALID_BIND_ADDRESS:"));
    let mut s = snapshot();
    s.context_id = "other".into();
    assert!(config().check(ip, &s, "linux").unwrap_err().starts_with("CONTEXT_CHANGED"));
    let mut s = snapshot();
    s.devices[0].is_self = false;
    assert_eq!(config().check(ip, &s, "linux").unwrap_err(), "LOCAL_NODE_CHANGED");
    let mut c = config();
    c.allowed_directories = vec!["/srv".into(), "relative".into()];
    assert!(c.check(ip, &snapshot(), "linux").is_ok());
    assert!(check_allowed_directory("/srv", "linux").is_ok());
    assert_eq!(check_allowed_directory("relative", "linux").unwrap_err(), "INVALID_ALLOWED_DIRECTORY");
    assert!(check_allowed_directory("C:\\work", "windows").is_ok());
}

fn parts(p: &[&str]) -> Vec<Vec<u8>> {
    p.iter().map(|c| c.as_bytes().to_vec()).collect()
}

#[test]
fn work_directories_lie_under_an_allowed_root_by_components() {
    let roots = vec![parts(&["/", "srv", "work"]), parts(&["/", "home", "me"])];
    assert!(check_work_directory(&parts(&["/", "srv", "work"]), &roots).is_ok());
    assert!(check_work_directory(&parts(&["/", "home", "me", "project"]), &roots).is_ok());
    assert_eq!(check_work_directory(&parts(&["/", "srv", "workshop"]), &roots).unwrap_err(), "DIRECTORY_NOT_ALLOWED");
    assert_eq!(check_work_directory(&parts(&["/", "srv"]), &roots).unwrap_err(), "DIRECTORY_NOT_ALLOWED");
    assert_eq!(check_work_directory(&parts(&["/", "srv", "work"]), &vec![]).unwrap_err(), "DIRECTORY_NOT_ALLOWED");
}

#[test]
fn certificates_are_read_and_pinned() {
    assert_eq!(certificate_der(&"x".repeat(16385)).unwrap_err(), "CERTIFICATE_LIMIT");
    assert_eq!(certificate_der("no certificate here").unwrap_err(), "INVALID_CERTIFICATE");
    let cert = rcgen::generate_simple_self_signed(vec!["100.64.0.1".into()]).unwrap();
    let pem = cert.cert.pem();
    let der = certificate_der(&pem).unwrap();
    assert_eq!(der, cert.cert.der().to_vec());
    let fingerprint = hex_digest(&der);
    assert_eq!(pinned_certificate(&pem, &fingerprint).unwrap(), der);
    assert_eq!(pinned_certificate(&pem, &"0".repeat(64)).unwrap_err(), "CERTIFICATE_FINGERPRINT_MISMATCH");
    let two = format!("{pem}{pem}");
    assert_eq!(certificate_der(&two).unwrap_err(), "INVALID_CERTIFICATE");
}

#[test]
fn endpoints_keep_their_node_and_offers_expire() {
    let e = new_endpoint("agent-1", &config(), "PEM".into(), b"der");
    assert_eq!(e.key_credential_ref, "agent-key-agent-1");
    assert_eq!(e.owner_credential_ref, "agent-owner-agent-1");
    assert_eq!(e.fingerprint, hex_digest(b"der"));
    assert_eq!((e.address.as_str(), e.port), ("100.64.0.1", 47321));
    assert!(check_saved_endpoint(&e, &config()).is_ok());
    let mut moved = config();
    moved.port = 1;
    assert!(check_saved_endpoint(&e, &moved).unwrap_err().starts_with("AGENT_IDENTITY_CHANGED"));
    let offer = offer_for(&e, PairingSession::new("s".into(), "secret".into(), 100));
    assert_eq!(offer.version, 1);
    assert_eq!(offer.session.expires_at, 400);
    assert!(check_offer(&offer, 399).is_ok());
    assert_eq!(check_offer(&offer, 400).unwrap_err(), "PAIRING_EXPIRED_OR_INCOMPATIBLE");
}

#[test]
fn remote_addresses_must_be_tailnet_addresses_with_a_port() {
    assert!(check_remote_address(Some(v4(100, 64, 0, 1)), 1).is_ok());
    assert_eq!(check_remote_address(Some(v4(127, 0, 0, 1)), 1).unwrap_err(), "INVALID_REMOTE_ADDRESS");
    assert!(check_remote_address(Some(v4(100, 64, 0, 1)), 0).is_err());
    assert!(check_remote_address(None, 1).is_err());
}

#[test]
fn routable_addresses_exclude_local_and_group_addresses() {
    assert!(is_routable(v4(100, 64, 0, 42)));
    for ip in [v4(0, 0, 0, 0), v4(127, 0, 0, 1), v4(224, 0, 0, 1), v4(255, 255, 255, 255)] {
        assert!(!is_routable(ip));
    }
    assert!(!is_routable(v6([0, 0, 0, 0, 0, 0, 0, 1])));
    assert!(!is_routable(v6([0xff02, 0, 0, 0, 0, 0, 0, 1])));
    assert!(is_routable(v6([0xfd7a, 0x115c, 0xa1e0, 0, 0, 0, 0, 0x42])));
}

#[test]
fn created_endpoints_pin_their_own_certificate() {
    let (e, key) = create_endpoint("agent-2", &config()).unwrap();
    assert!(key.contains("PRIVATE KEY"));
    let der = certificate_der(&e.certificate_pem).unwrap();
    assert_eq!(e.fingerprint, hex_digest(&der));
    assert_eq!(pinned_certificate(&e.certificate_pem, &e.fingerprint).unwrap(), der);
    assert_eq!((e.identity.agent_id.as_str(), e.identity.node_id.as_str()), ("agent-2", "me"));
    assert_eq!(e.key_credential_ref, "agent-key-agent-2");
}

#[test]
fn settings_are_checked_before_the_network_is_read() {
    assert!(config().check_settings(Some(v4(100, 64, 0, 1))).is_ok());
    assert_eq!(config().check_settings(None).unwrap_err(), "INVALID_BIND_ADDRESS");
    let mut c = config();
    c.concurrency = 5;
    assert_eq!(c.check_settings(Some(v4(100, 64, 0, 1))).unwrap_err(), "INVALID_AGENT_CONFIGURATION");
    assert!(config().check_settings(Some(v4(10, 0, 0, 1))).unwrap_err().starts_with("INVALID_BIND_ADDRESS:"));
}
