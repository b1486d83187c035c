use tailtask::identity::IpAddress;
use tailtask::model::{Device, NetworkSnapshot};
use tailtask::rdp::{desktop_address, desktop_target};

fn snapshot() -> NetworkSnapshot {
    NetworkSnapshot {
        state: "ready".into(),
        version: "test".into(),
        network: "test".into(),
        context_id: "network".into(),
        observed_at: "test".into(),
        error: None,
        devices: vec![Device {
            node_id: "target".into(),
            name: "合成设备".into(),
            dns_name: String::new(),
            os: "windows".into(),
            addresses: vec!["100.64.0.42".into()],
            online: Some(true),
            is_self: false,
            last_seen: None,
            alias: String::new(),
            favorite: false,
            observed_at: "test".into(),
            visible: true,
        }],
    }
}

#[test]
fn uses_fresh_address_as_one_fixed_argument_without_pairing() {
    let live = snapshot();
    assert_eq!(desktop_target(&live, "network", "target").unwrap(), 0);
    let parsed = vec![Some(IpAddress::V6([0xfd7a, 0x115c, 0xa1e0, 0, 0, 0, 0, 0x42])), Some(IpAddress::V4([100, 64, 0, 43]))];
    assert_eq!(desktop_address(&parsed).unwrap(), IpAddress::V4([100, 64, 0, 43]));
    let only_v6 = vec![Some(IpAddress::V6([0xfd7a, 0x115c, 0xa1e0, 0, 0, 0, 0, 0x42]))];
    assert_eq!(desktop_address(&only_v6).unwrap(), IpAddress::V6([0xfd7a, 0x115c, 0xa1e0, 0, 0, 0, 0, 0x42]));
}

#[test]
fn rejects_changed_identity_hidden_self_and_non_windows_targets() {
    let original = snapshot();
    for (context, node) in [("old-network", "target"), ("network", "missing")] {
        assert!(desktop_target(&original, context, node).is_err());
    }
    for kind in 0..4 {
        let mut live = snapshot();
        match kind {
            0 => live.state = "login_required".into(),
            1 => live.devices[0].visible = false,
            2 => live.devices[0].is_self = true,
            _ => live.devices[0].os = "linux".into(),
        }
        assert!(desktop_target(&live, "network", "target").is_err());
    }
    let mut upper = snapshot();
    upper.devices[0].os = "Windows".into();
    assert!(desktop_target(&upper, "network", "target").is_ok());
}

#[test]
fn rejects_malformed_or_local_addresses_and_propagates_spawn_failure() {
    for bad in [
        None,
        Some(IpAddress::V4([127, 0, 0, 1])),
        Some(IpAddress::V6([0, 0, 0, 0, 0, 0, 0, 1])),
        Some(IpAddress::V4([0, 0, 0, 0])),
        Some(IpAddress::V4([224, 0, 0, 1])),
        Some(IpAddress::V4([255, 255, 255, 255])),
    ] {
        assert!(desktop_address(&vec![bad]).unwrap_err().starts_with("RDP_ADDRESS:"));
    }
    assert!(desktop_address(&vec![]).is_err());
}

#[test]
fn target_errors_explain_the_refusal() {
    let mut live = snapshot();
    live.devices[0].is_self = true;
    assert!(desktop_target(&live, "network", "target").unwrap_err().starts_with("RDP_SELF"));
    let mut live = snapshot();
    live.devices[0].os = "macOS".into();
    assert!(desktop_target(&live, "network", "target").unwrap_err().starts_with("RDP_TARGET"));
    assert!(desktop_target(&snapshot(), "network", "missing").unwrap_err().starts_with("DEVICE_NOT_VISIBLE"));
    assert!(desktop_target(&snapshot(), "old", "target").unwrap_err().starts_with("CONTEXT_CHANGED"));
}
