use tailtask::identity::AgentConfig;
use tailtask::lifecycle::{
    appimage_executable, check_not_running, not_configured, observed, start_failure, start_step, StartStep,
    SERVE_FLAG, WORKER_FLAG,
};

fn config() -> AgentConfig {
    AgentConfig {
        allowed_directories: vec!["/w".into()],
        concurrency: 1,
        port: 47321,
        context_id: "c".into(),
        node_id: "n".into(),
        address: "100.64.0.1".into(),
    }
}

#[test]
fn appimage_background_uses_the_durable_image_path() {
    let mount = "/tmp/.mount_app";
    let image = "/home/u/remote.AppImage";
    assert_eq!(appimage_executable("/tmp/.mount_app/app", Some(mount), true, Some(image)).unwrap(), image);
    assert_eq!(appimage_executable("/usr/bin/app", Some(mount), true, Some(image)).unwrap(), "/usr/bin/app");
    assert!(appimage_executable("/tmp/.mount_app/app", Some(mount), false, None).is_err());
    assert_eq!(appimage_executable("/tmp/.mount_appx/app", Some(mount), false, None).unwrap(), "/tmp/.mount_appx/app");
    assert_eq!(appimage_executable("/x", None, true, Some(image)).unwrap_err(), "APPIMAGE_MOUNT_UNAVAILABLE");
    assert_eq!(appimage_executable("/tmp/.mount_app", Some(mount), true, None).unwrap_err(), "APPIMAGE_PATH_UNAVAILABLE");
}

#[test]
fn agent_states_and_starts() {
    let none = not_configured();
    assert_eq!(none.state, "not_configured");
    assert!(check_not_running(&none).is_ok());
    let down = observed(config(), Err("REMOTE_UNAVAILABLE".into()));
    assert_eq!((down.state.as_str(), down.error.as_deref()), ("unreachable", Some("REMOTE_UNAVAILABLE")));
    let mut running = down.clone();
    running.state = "running".into();
    assert!(check_not_running(&running).unwrap_err().starts_with("AGENT_ALREADY_RUNNING"));
    assert_eq!(start_failure("bind failed"), "AGENT_START_FAILED: bind failed");
    assert_eq!(start_failure(&"中".repeat(2500)).chars().count(), "AGENT_START_FAILED: ".len() + 2000);
    assert_eq!(start_step(0, true, true), StartStep::Failed);
    assert_eq!(start_step(0, false, true), StartStep::Started);
    assert_eq!(start_step(28, false, false), StartStep::Wait);
    assert_eq!(start_step(29, false, false), StartStep::GiveUp);
    assert_eq!((SERVE_FLAG, WORKER_FLAG), ("--xiangwriter-agent", "--xiangwriter-task-worker"));
}
