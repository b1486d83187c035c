use tailtask::model::{
    check_alias, check_setting, page_limit, quick_check_outcome, refresh_interval, run_failure_message,
    run_outcome, unsaved_result_warning, NetworkSnapshot, RepairAction, RepairRequest, Task,
};

fn task(state: &str) -> Task {
    Task {
        id: "t".into(),
        request_id: "019147f5-5a8d-42aa-8110-f224436657e0".into(),
        action: "check_database".into(),
        label: "检查应用数据库".into(),
        state: state.into(),
        created_at: "c".into(),
        started_at: None,
        finished_at: None,
        result: None,
        scope: "local_application".into(),
        persistence_warning: None,
    }
}

#[test]
fn rejects_arbitrary_commands_and_unknown_repair_actions() {
    let valid_id = "019147f5-5a8d-42aa-8110-f224436657e0";
    for action in ["run_shell", "command", "script", ""] {
        assert!(RepairAction::from_key(action).is_none());
    }
    assert_eq!(RepairAction::from_key("check_database"), Some(RepairAction::CheckDatabase));
    assert!(RepairRequest { request_id: valid_id.into(), action: RepairAction::CheckDatabase }
        .validate()
        .is_ok());
    assert!(RepairRequest { request_id: "invalid".into(), action: RepairAction::CheckDatabase }
        .validate()
        .is_err());
}

#[test]
fn repair_actions_have_fixed_keys_and_labels() {
    assert_eq!(RepairAction::CheckDatabase.key(), "check_database");
    assert_eq!(RepairAction::RebuildIndexes.key(), "rebuild_indexes");
    assert_eq!(RepairAction::CheckDatabase.label(), "检查应用数据库");
    assert_eq!(RepairAction::RebuildIndexes.label(), "重建应用数据库索引");
    assert_eq!(RepairAction::from_key("rebuild_indexes"), Some(RepairAction::RebuildIndexes));
}

#[test]
fn a_retry_must_name_the_same_action() {
    let request = RepairRequest {
        request_id: "019147f5-5a8d-42aa-8110-f224436657e0".into(),
        action: RepairAction::RebuildIndexes,
    };
    assert_eq!(request.matches_task(&task("queued")).unwrap_err(), "IDEMPOTENCY_CONFLICT");
    let same = RepairRequest { action: RepairAction::CheckDatabase, ..request };
    assert!(same.matches_task(&task("queued")).is_ok());
}

#[test]
fn repair_tasks_only_move_forward() {
    let (running, started) = task("queued").start("s".into());
    assert!(started);
    assert_eq!(running.state, "running");
    assert_eq!(running.started_at.as_deref(), Some("s"));
    let (again, moved) = running.clone().start("x".into());
    assert!(!moved);
    assert_eq!(again.state, "running");
    let (done, finished) = running.finish("succeeded".into(), "ok".into(), "f".into());
    assert!(finished);
    assert_eq!((done.state.as_str(), done.result.as_deref()), ("succeeded", Some("ok")));
    let (same, changed) = done.interrupt("later".into());
    assert!(!changed);
    assert_eq!(same.state, "succeeded");
    let (interrupted, changed) = task("queued").interrupt("r".into());
    assert!(changed);
    assert_eq!(interrupted.state, "interrupted");
    assert_eq!(interrupted.result.as_deref(), Some("应用上次退出时任务未完成；未自动重试"));
}

#[test]
fn repair_outcomes_and_messages() {
    assert_eq!(run_outcome(Ok("m".into())), ("succeeded".to_string(), "m".to_string()));
    assert_eq!(run_outcome(Err("e".into())), ("failed".to_string(), "e".to_string()));
    assert_eq!(quick_check_outcome(&vec!["ok".into()]).unwrap(), "应用数据库完整性检查通过");
    assert_eq!(
        quick_check_outcome(&vec!["ok".into(), "bad page".into()]).unwrap_err(),
        "数据库检查发现问题：ok; bad page"
    );
    assert_eq!(quick_check_outcome(&vec![]).unwrap_err(), "数据库检查发现问题：");
    assert_eq!(run_failure_message("x"), "任务执行或结果保存失败：x；未自动重试");
    assert_eq!(unsaved_result_warning("m"), "RESULT_NOT_SAVED: 结果未能保存，状态待核实。m");
    assert_eq!((page_limit(0), page_limit(50), page_limit(500)), (1, 50, 100));
}

#[test]
fn settings_and_aliases_are_bounded() {
    assert_eq!(refresh_interval(Some("60".into())), "60");
    assert_eq!(refresh_interval(Some("7".into())), "30");
    assert_eq!(refresh_interval(None), "30");
    assert!(check_setting("refresh_seconds", "10").is_ok());
    assert_eq!(check_setting("refresh_seconds", "5").unwrap_err(), "SETTING_NOT_ALLOWED");
    assert!(check_setting("other", "10").is_err());
    assert!(check_alias(&"中".repeat(120)).is_ok());
    assert_eq!(check_alias(&"中".repeat(121)).unwrap_err(), "别名不能超过 120 字符");
}

#[test]
fn only_a_ready_snapshot_confirms_its_context() {
    let mut s = NetworkSnapshot {
        state: "ready".into(),
        version: "1".into(),
        network: "n".into(),
        context_id: "ctx".into(),
        observed_at: "t".into(),
        devices: vec![],
        error: None,
    };
    assert!(s.require_context("ctx").is_ok());
    assert!(s.check_storable().is_ok());
    assert!(s.require_context("other").is_err());
    s.state = "login_required".into();
    assert!(s.require_context("ctx").is_err());
    assert_eq!(s.check_storable().unwrap_err(), "INVALID_CONTEXT");
    s.state = "ready".into();
    s.context_id = String::new();
    assert!(s.require_context("").is_err());
}

fn device(node: &str) -> tailtask::model::Device {
    tailtask::model::Device {
        node_id: node.into(),
        name: "n".into(),
        dns_name: String::new(),
        os: "linux".into(),
        addresses: vec!["100.64.0.1".into()],
        online: Some(true),
        is_self: false,
        last_seen: None,
        alias: String::new(),
        favorite: false,
        observed_at: "t".into(),
        visible: true,
    }
}

#[test]
fn stored_devices_carry_preferences_and_cached_ones_are_hidden() {
    let d = tailtask::model::with_preferences(device("a"), "别名".into(), 1, 0);
    assert_eq!((d.alias.as_str(), d.favorite, d.visible), ("别名", true, false));
    let hidden = tailtask::model::hide_all(vec![device("a"), device("b")]);
    assert_eq!(hidden.len(), 2);
    assert!(hidden.iter().all(|d| !d.visible));
    assert_eq!(hidden[1].node_id, "b");
    assert!(tailtask::model::check_updated(1).is_ok());
    assert_eq!(tailtask::model::check_updated(0).unwrap_err(), "DEVICE_NOT_FOUND");
    assert_eq!(tailtask::model::check_repair_succeeded("failed").unwrap_err(), "REPAIR_FAILED: 请查看任务结果");
    assert!(tailtask::model::check_repair_succeeded("succeeded").is_ok());
}

#[test]
fn live_devices_are_required_for_preference_changes() {
    let live = NetworkSnapshot {
        state: "ready".into(),
        version: "1".into(),
        network: "n".into(),
        context_id: "ctx".into(),
        observed_at: "t".into(),
        devices: vec![device("a")],
        error: None,
    };
    assert!(tailtask::model::should_store(&live));
    assert!(tailtask::model::check_live_device(&live, "ctx", "a").is_ok());
    assert_eq!(tailtask::model::check_live_device(&live, "ctx", "b").unwrap_err(), "DEVICE_NOT_VISIBLE: 设备当前不可见，请刷新");
    assert!(tailtask::model::check_live_device(&live, "old", "a").is_err());
}
