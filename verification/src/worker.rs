//! The task worker: what it accepts on its input, the script file it
//! writes, and the one program and argument array it starts. Nothing is
//! ever handed to a shell as a command line.

use crate::remote_model::{Execution, Interpreter, PowerShellPolicy, MAX_REQUEST_BYTES};
use crate::text::{chars_of, owned, push_char, push_str, texts};
use vstd::prelude::*;

verus! {

broadcast use vstd::string::group_string_axioms;

/// The largest worker input: a request and its working directory.
pub const MAX_WORKER_INPUT: usize = MAX_REQUEST_BYTES + 65536;

/// The exit code of a worker that could not start its task.
pub const WORKER_FAILURE_CODE: i32 = 125;

/// The check on a worker input of `len` bytes: not empty, and within the
/// limit.
pub fn check_worker_input(len: usize) -> (r: Result<(), String>)
    ensures
        r is Ok <==> 0 < len <= MAX_WORKER_INPUT,
        r matches Err(e) ==> e@ == "WORKER_INPUT_LIMIT"@,
{
    if len == 0 || len > MAX_WORKER_INPUT {
        Err(owned("WORKER_INPUT_LIMIT"))
    } else {
        Ok(())
    }
}

/// The name of the script file for an interpreter.
pub open spec fn script_name_of(i: Interpreter) -> Seq<char> {
    if i.is_powershell() {
        "task.ps1"@
    } else {
        "task.sh"@
    }
}

/// The name of the script file the worker writes in its work directory.
pub fn script_file_name(interpreter: Interpreter) -> (r: &'static str)
    ensures
        r@ == script_name_of(interpreter),
{
    match interpreter {
        Interpreter::Powershell | Interpreter::Pwsh => "task.ps1",
        _ => "task.sh",
    }
}

/// The bytes of a script file: the UTF-8 source, with a byte order mark in
/// front for Windows PowerShell, which reads a file without one in the
/// legacy code page.
pub open spec fn script_bytes_of(i: Interpreter, source: Seq<char>) -> Seq<u8> {
    if i is Powershell {
        seq![0xefu8, 0xbbu8, 0xbfu8] + vstd::utf8::encode_utf8(source)
    } else {
        vstd::utf8::encode_utf8(source)
    }
}

/// The bytes the worker writes to the script file.
pub fn script_bytes(interpreter: Interpreter, source: &str) -> (r: Vec<u8>)
    ensures
        r@ == script_bytes_of(interpreter, source@),
{
    let mut out: Vec<u8> = Vec::new();
    match interpreter {
        Interpreter::Powershell => {
            out.push(0xef);
            out.push(0xbb);
            out.push(0xbf);
        },
        _ => {},
    }
    let bytes = source.as_bytes();
    let mut i: usize = 0;
    let ghost start = out@;
    while i < bytes.len()
        invariant
            i <= bytes.len(),
            out@ == start + bytes@.take(i as int),
        decreases bytes.len() - i,
    {
        out.push(bytes[i]);
        assert(bytes@.take(i + 1) =~= bytes@.take(i as int).push(bytes@[i as int]));
        i += 1;
    }
    assert(bytes@.take(bytes.len() as int) =~= bytes@);
    proof {
        if interpreter is Powershell {
            assert(start =~= seq![0xefu8, 0xbbu8, 0xbfu8]);
        } else {
            assert(start =~= Seq::<u8>::empty());
        }
    }
    out
}

/// A text with each `'` doubled, for a single-quoted PowerShell string.
pub open spec fn quoted_single(s: Seq<char>) -> Seq<char>
    decreases s.len(),
{
    if s.len() == 0 {
        Seq::empty()
    } else if s.last() == '\'' {
        quoted_single(s.drop_last()) + seq!['\'', '\'']
    } else {
        quoted_single(s.drop_last()).push(s.last())
    }
}

/// Doubles each `'` of a text.
pub fn quote_single(s: &str) -> (r: String)
    ensures
        r@ == quoted_single(s@),
{
    let v = chars_of(s);
    let mut out = String::new();
    let mut i: usize = 0;
    while i < v.len()
        invariant
            i <= v.len(),
            v@ == s@,
            out@ == quoted_single(v@.take(i as int)),
        decreases v.len() - i,
    {
        assert(v@.take(i + 1).drop_last() =~= v@.take(i as int));
        if v[i] == '\'' {
            push_char(&mut out, '\'');
            push_char(&mut out, '\'');
            assert(out@ =~= quoted_single(v@.take(i as int)) + seq!['\'', '\'']);
        } else {
            push_char(&mut out, v[i]);
        }
        i += 1;
    }
    assert(v@.take(v.len() as int) =~= v@);
    out
}

/// The PowerShell command that runs a script at `path`: output in UTF-8,
/// and the script's exit code (or 1 for a failed script without one) as
/// the worker's.
pub open spec fn powershell_command(path: Seq<char>) -> Seq<char> {
    "[Console]::OutputEncoding = New-Object System.Text.UTF8Encoding($false); $OutputEncoding = [Console]::OutputEncoding; & '"@
        + quoted_single(path)
        + "'; $scriptSucceeded = $?; if ($null -ne $LASTEXITCODE) { exit $LASTEXITCODE } elseif (-not $scriptSucceeded) { exit 1 }"@
}

/// The arguments that run a script file at `path`.
pub open spec fn script_args(i: Interpreter, policy: PowerShellPolicy, path: Seq<char>) -> Seq<Seq<char>> {
    if i.is_powershell() {
        seq!["-NoLogo"@, "-NoProfile"@, "-NonInteractive"@] + (if policy == PowerShellPolicy::ProcessRemoteSigned {
            seq!["-ExecutionPolicy"@, "RemoteSigned"@]
        } else {
            Seq::empty()
        }) + seq!["-Command"@, powershell_command(path)]
    } else {
        seq![path]
    }
}

/// The program and arguments the worker starts for an execution, the
/// script (if any) written at `script_path`: a program with its own
/// argument array as given, or the interpreter with the script file.
pub open spec fn invocation(e: Execution, script_path: Seq<char>) -> (Seq<char>, Seq<Seq<char>>) {
    match e {
        Execution::Exec { program, args } => (program@, texts(args@)),
        Execution::Script { interpreter, powershell_policy, .. } => (
            interpreter.program_text(),
            script_args(interpreter, powershell_policy, script_path),
        ),
    }
}

/// The program and arguments the worker starts.
pub fn worker_invocation(execution: &Execution, script_path: &str) -> (r: (String, Vec<String>))
    ensures
        (r.0@, texts(r.1@)) == invocation(*execution, script_path@),
{
    match execution {
        Execution::Exec { program, args } => {
            let mut out: Vec<String> = Vec::new();
            let mut i: usize = 0;
            while i < args.len()
                invariant
                    i <= args.len(),
                    out@ == args@.take(i as int),
                decreases args.len() - i,
            {
                out.push(args[i].clone());
                assert(out@ =~= args@.take(i + 1));
                i += 1;
            }
            assert(args@.take(args.len() as int) =~= args@);
            (program.clone(), out)
        },
        Execution::Script { interpreter, powershell_policy, .. } => {
            let mut args: Vec<String> = Vec::new();
            let powershell = match interpreter {
                Interpreter::Powershell | Interpreter::Pwsh => true,
                _ => false,
            };
            if powershell {
                args.push(owned("-NoLogo"));
                args.push(owned("-NoProfile"));
                args.push(owned("-NonInteractive"));
                let ghost base = texts(args@);
                assert(base =~= seq!["-NoLogo"@, "-NoProfile"@, "-NonInteractive"@]);
                let signed = match powershell_policy {
                    PowerShellPolicy::ProcessRemoteSigned => true,
                    PowerShellPolicy::Inherit => false,
                };
                if signed {
                    args.push(owned("-ExecutionPolicy"));
                    args.push(owned("RemoteSigned"));
                }
                let ghost middle = texts(args@);
                assert(middle =~= base + (if *powershell_policy == PowerShellPolicy::ProcessRemoteSigned {
                    seq!["-ExecutionPolicy"@, "RemoteSigned"@]
                } else {
                    Seq::<Seq<char>>::empty()
                }));
                let mut command = owned(
                    "[Console]::OutputEncoding = New-Object System.Text.UTF8Encoding($false); $OutputEncoding = [Console]::OutputEncoding; & '",
                );
                let quoted = quote_single(script_path);
                push_str(&mut command, quoted.as_str());
                push_str(
                    &mut command,
                    "'; $scriptSucceeded = $?; if ($null -ne $LASTEXITCODE) { exit $LASTEXITCODE } elseif (-not $scriptSucceeded) { exit 1 }",
                );
                args.push(owned("-Command"));
                args.push(command);
                assert(texts(args@) =~= middle + seq!["-Command"@, powershell_command(script_path@)]);
            } else {
                args.push(owned(script_path));
                assert(texts(args@) =~= seq![script_path@]);
            }
            (owned(interpreter.program()), args)
        },
    }
}

/// The worker's exit code: the task's code, 1 for a task ended without
/// one, and 125 where the task could not be started.
pub fn worker_exit_code(outcome: Result<Option<i32>, String>) -> (r: i32)
    ensures
        r == match outcome {
            Ok(Some(c)) => c,
            Ok(None) => 1,
            Err(_) => WORKER_FAILURE_CODE,
        },
{
    match outcome {
        Ok(Some(c)) => c,
        Ok(None) => 1,
        Err(_) => WORKER_FAILURE_CODE,
    }
}

} // verus!
