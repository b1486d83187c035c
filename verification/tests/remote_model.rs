use tailtask::controller::same_request;
use tailtask::environment::EnvironmentMap;
use tailtask::remote_model::{
    absolute_for, bounded, hex_digest, validate_relative, Execution, Interpreter, PowerShellPolicy,
    RemoteRequest, RemoteState, TargetIdentity, MAX_SCRIPT_BYTES,
};

fn request() -> RemoteRequest {
    RemoteRequest {
        request_id: uuid::Uuid::new_v4().to_string(),
        name: "中文任务".into(),
        target: TargetIdentity { agent_id: uuid::Uuid::new_v4().to_string(), node_id: "node-1".into() },
        cwd: "/tmp/中文 工作".into(),
        execution: Execution::Exec {
            program: "/bin/echo".into(),
            args: vec!["中文 空格 \"参数\"".into()],
        },
        timeout_seconds: 3600,
        environment: EnvironmentMap::new(),
        result_directory: Some("results".into()),
    }
}

#[test]
fn unicode_arguments_roundtrip_without_shell_parsing() {
    let req = request();
    req.check_fields("linux").unwrap();
    assert!(same_request(&req, &req.clone()));
    let mut win = req.clone();
    win.cwd = "C:\\工作\\目录".into();
    win.check_fields("windows").unwrap();
    for path in ["C:relative", "\\\\server\\share", "relative", "\\rooted"] {
        win.cwd = path.into();
        assert!(win.check_fields("windows").is_err());
    }
}

#[test]
fn rejects_unknown_fields_modes_limits_and_escape_paths() {
    let req = request();
    for timeout in [0, 86401] {
        let mut r = req.clone();
        r.timeout_seconds = timeout;
        assert!(r.check_fields("linux").is_err());
    }
    for path in ["../private", "/private", "x/../../secret", "x\\..\\secret", "C:secret", "x//y"] {
        let mut r = req.clone();
        r.result_directory = Some(path.into());
        assert!(r.check_fields("linux").is_err());
    }
    let mut r = req.clone();
    r.execution = Execution::Script {
        interpreter: Interpreter::Sh,
        source: "x".repeat(MAX_SCRIPT_BYTES + 1),
        powershell_policy: PowerShellPolicy::Inherit,
    };
    assert!(r.check_fields("linux").is_err());
    r = req;
    r.environment.insert("BAD=NAME".into(), "x".into());
    assert!(r.check_fields("linux").is_err());
}

#[test]
fn hash_covers_execution_but_not_request_id_or_map_insertion_order() {
    let a = request();
    let mut b = a.clone();
    b.request_id = uuid::Uuid::new_v4().to_string();
    assert!(same_request(&a.hash_material(), &b.hash_material()));
    b.cwd.push('x');
    assert!(!same_request(&a.hash_material(), &b.hash_material()));
    let mut a = a;
    a.environment.insert("b".into(), "2".into());
    a.environment.insert("a".into(), "1".into());
    let mut b = a.clone();
    b.environment.clear();
    b.environment.insert("a".into(), "1".into());
    b.environment.insert("b".into(), "2".into());
    assert!(same_request(&a.hash_material(), &b.hash_material()));
    assert_eq!(a.environment.pairs()[0].0, "a");
    assert_eq!(RemoteRequest::content_hash(b"abc"), hex_digest(b"abc"));
}

#[test]
fn requests_over_the_size_limit_are_refused() {
    let req = request();
    assert!(req.validate("linux", 1000).is_ok());
    assert_eq!(req.validate("linux", 384 * 1024 + 1).unwrap_err(), "REQUEST_LIMIT");
    assert!(req.validate("linux", 384 * 1024).is_ok());
}

#[test]
fn field_errors_come_in_order() {
    let mut r = request();
    r.request_id = "nope".into();
    assert_eq!(r.check_fields("linux").unwrap_err(), "INVALID_REQUEST_ID");
    let mut r = request();
    r.target.agent_id = "nope".into();
    assert_eq!(r.check_fields("linux").unwrap_err(), "INVALID_AGENT_ID");
    let mut r = request();
    r.name = "  ".into();
    assert!(r.check_fields("linux").unwrap_err().starts_with("INVALID_NAME"));
    let mut r = request();
    r.cwd = "relative".into();
    assert!(r.check_fields("linux").unwrap_err().starts_with("INVALID_DIRECTORY"));
    let mut r = request();
    r.execution = Execution::Exec { program: "C:\\tools\\run.CMD".into(), args: vec![] };
    r.cwd = "C:\\w".into();
    assert!(r.check_fields("windows").unwrap_err().starts_with("USE_SCRIPT_MODE"));
    let mut r = request();
    r.execution = Execution::Script {
        interpreter: Interpreter::Powershell,
        source: "Get-Date".into(),
        powershell_policy: PowerShellPolicy::Inherit,
    };
    assert_eq!(r.check_fields("linux").unwrap_err(), "UNSUPPORTED_INTERPRETER");
    let mut r = request();
    r.environment.insert("path".into(), "a".into());
    r.environment.insert("PATH".into(), "b".into());
    assert!(r.check_fields("linux").is_ok());
    r.cwd = "C:\\w".into();
    assert_eq!(r.check_fields("windows").unwrap_err(), "DUPLICATE_ENVIRONMENT");
}

#[test]
fn paths_and_bounded_texts() {
    assert!(absolute_for("/x", "linux"));
    assert!(absolute_for("/x", "macos"));
    assert!(!absolute_for("/x", "windows"));
    assert!(absolute_for("d:/x", "windows"));
    assert!(!absolute_for("/x", "freebsd"));
    assert!(validate_relative("a/b.txt").is_ok());
    assert_eq!(validate_relative("a/./b").unwrap_err(), "INVALID_RESULT_DIRECTORY");
    assert!(validate_relative("").is_err());
    assert!(bounded("node", 256, "NODE_ID").is_ok());
    assert_eq!(bounded(" ", 256, "NODE_ID").unwrap_err(), "INVALID_NODE_ID");
    assert!(bounded(&"n".repeat(257), 256, "NODE_ID").is_err());
}

#[test]
fn interpreters_and_states() {
    assert_eq!(Interpreter::Powershell.program(), "powershell.exe");
    assert_eq!(Interpreter::Sh.program(), "/bin/sh");
    assert!(Interpreter::Powershell.compatible("windows"));
    assert!(!Interpreter::Bash.compatible("windows"));
    assert!(Interpreter::Pwsh.compatible("linux"));
    assert!(RemoteState::TimedOut.terminal());
    assert!(!RemoteState::Cancelling.terminal());
    assert_eq!(RemoteState::RecoveryRequired.as_str(), "recovery_required");
    assert_eq!(RemoteState::Queued.as_str(), "queued");
}

#[test]
fn hex_digest_is_lower_case_sha256() {
    assert_eq!(hex_digest(b""), "e3b0c44298fc1c149afbf4c8996fb92427ae41e4649b934ca495991b7852b855");
    assert_eq!(hex_digest(b"abc"), "ba7816bf8f01cfea414140de5dae2223b00361a396177a9cb410ff61f20015ad");
}

#[test]
fn state_names_read_back() {
    for s in [
        RemoteState::Queued,
        RemoteState::Starting,
        RemoteState::Running,
        RemoteState::Cancelling,
        RemoteState::Succeeded,
        RemoteState::Failed,
        RemoteState::Cancelled,
        RemoteState::TimedOut,
        RemoteState::RecoveryRequired,
    ] {
        assert_eq!(RemoteState::from_name(s.as_str()), Some(s));
    }
    assert_eq!(RemoteState::from_name("done"), None);
}
