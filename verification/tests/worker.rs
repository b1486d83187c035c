use tailtask::remote_model::{Execution, Interpreter, PowerShellPolicy};
use tailtask::worker::{check_worker_input, quote_single, script_bytes, script_file_name, worker_exit_code, worker_invocation};

#[test]
fn programs_keep_their_argument_arrays() {
    let e = Execution::Exec { program: "/bin/echo".into(), args: vec!["中文 空格 \"引号\"".into(), "$HOME".into()] };
    let (program, args) = worker_invocation(&e, "/unused");
    assert_eq!(program, "/bin/echo");
    assert_eq!(args, vec!["中文 空格 \"引号\"".to_string(), "$HOME".to_string()]);
}

#[test]
fn scripts_run_from_their_file() {
    let sh = Execution::Script { interpreter: Interpreter::Bash, source: "echo hi".into(), powershell_policy: PowerShellPolicy::Inherit };
    assert_eq!(worker_invocation(&sh, "/w/task.sh"), ("bash".to_string(), vec!["/w/task.sh".to_string()]));
    let ps = Execution::Script {
        interpreter: Interpreter::Powershell,
        source: "Get-Date".into(),
        powershell_policy: PowerShellPolicy::ProcessRemoteSigned,
    };
    let (program, args) = worker_invocation(&ps, "C:\\it's\\task.ps1");
    assert_eq!(program, "powershell.exe");
    assert_eq!(&args[..5], &["-NoLogo", "-NoProfile", "-NonInteractive", "-ExecutionPolicy", "RemoteSigned"]);
    assert_eq!(args[5], "-Command");
    assert!(args[6].contains("& 'C:\\it''s\\task.ps1';"));
    assert!(args[6].starts_with("[Console]::OutputEncoding = New-Object System.Text.UTF8Encoding($false);"));
    let pwsh = Execution::Script { interpreter: Interpreter::Pwsh, source: "x".into(), powershell_policy: PowerShellPolicy::Inherit };
    assert_eq!(worker_invocation(&pwsh, "/t.ps1").1.len(), 5);
}

#[test]
fn script_files_and_exit_codes() {
    assert_eq!(script_file_name(Interpreter::Pwsh), "task.ps1");
    assert_eq!(script_file_name(Interpreter::Sh), "task.sh");
    assert_eq!(script_bytes(Interpreter::Powershell, "中"), vec![0xef, 0xbb, 0xbf, 0xe4, 0xb8, 0xad]);
    assert_eq!(script_bytes(Interpreter::Pwsh, "a"), vec![b'a']);
    assert_eq!(quote_single("a'b''"), "a''b''''");
    assert_eq!(worker_exit_code(Ok(Some(42))), 42);
    assert_eq!(worker_exit_code(Ok(None)), 1);
    assert_eq!(worker_exit_code(Err("PROCESS_START".into())), 125);
    assert!(check_worker_input(1).is_ok());
    assert_eq!(check_worker_input(0).unwrap_err(), "WORKER_INPUT_LIMIT");
    assert!(check_worker_input(384 * 1024 + 65537).is_err());
}
