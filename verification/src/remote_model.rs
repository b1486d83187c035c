//! The wire model of remote tasks: what a controller may ask an agent to
//! run, the checks every request passes before it is accepted, and the
//! states a remote task goes through.

use crate::environment::{names_ascending, EnvironmentMap};
use crate::outside::{sha256, sha256_digest, to_upper, unicode_upper, uuid_parses, uuid_text};
use crate::text::{
    any_control, ascii_lower, blank, byte_len, chars_of, concat, contains_char, ends_with,
    ends_with_ignoring_ascii_case, has_char, has_control, hex_lower, hex_text, is_blank, owned,
    same_text, texts, utf8_len,
};
use vstd::prelude::*;

verus! {

broadcast use vstd::string::group_string_axioms;

pub const PROTOCOL_VERSION: u32 = 1;
pub const MAX_REQUEST_BYTES: usize = 384 * 1024;
pub const MAX_SCRIPT_BYTES: usize = 256 * 1024;
pub const MAX_OUTPUT_BYTES: usize = 16 * 1024 * 1024;
pub const MAX_WAITING: i64 = 100;

/// The agent and network node a request is addressed to.
#[derive(Debug, Clone, PartialEq, Eq)]
pub struct TargetIdentity {
    pub agent_id: String,
    pub node_id: String,
}

/// Whether two identities name the same agent and node.
pub open spec fn same_target(a: TargetIdentity, b: TargetIdentity) -> bool {
    a.agent_id@ == b.agent_id@ && a.node_id@ == b.node_id@
}

impl TargetIdentity {
    /// `==` on identities.
    pub fn same_as(&self, other: &TargetIdentity) -> (r: bool)
        ensures
            r == same_target(*self, *other),
    {
        self.agent_id == other.agent_id && self.node_id == other.node_id
    }
}

/// How the agent may run PowerShell scripts.
#[derive(Debug, Clone, Copy, PartialEq, Eq, Structural)]
pub enum PowerShellPolicy {
    Inherit,
    ProcessRemoteSigned,
}

impl Default for PowerShellPolicy {
    /// The inherited policy.
    fn default() -> (r: Self)
        ensures
            r == PowerShellPolicy::Inherit,
    {
        PowerShellPolicy::Inherit
    }
}

/// The script interpreters a request may name.
#[derive(Debug, Clone, Copy, PartialEq, Eq, Structural)]
pub enum Interpreter {
    Powershell,
    Pwsh,
    Sh,
    Bash,
    Zsh,
}

/// Whether an interpreter runs on the operating system `os`.
pub open spec fn interpreter_runs_on(i: Interpreter, os: Seq<char>) -> bool {
    match i {
        Interpreter::Powershell => os == "windows"@,
        Interpreter::Pwsh => true,
        _ => os == "linux"@ || os == "macos"@,
    }
}

impl Interpreter {
    /// The program that runs the interpreter.
    pub open spec fn program_text(self) -> Seq<char> {
        match self {
            Interpreter::Powershell => "powershell.exe"@,
            Interpreter::Pwsh => "pwsh"@,
            Interpreter::Sh => "/bin/sh"@,
            Interpreter::Bash => "bash"@,
            Interpreter::Zsh => "zsh"@,
        }
    }

    /// The program that runs the interpreter.
    pub fn program(self) -> (r: &'static str)
        ensures
            r@ == self.program_text(),
    {
        match self {
            Interpreter::Powershell => "powershell.exe",
            Interpreter::Pwsh => "pwsh",
            Interpreter::Sh => "/bin/sh",
            Interpreter::Bash => "bash",
            Interpreter::Zsh => "zsh",
        }
    }

    /// Whether the interpreter runs on `os`.
    pub fn compatible(self, os: &str) -> (r: bool)
        ensures
            r == interpreter_runs_on(self, os@),
    {
        match self {
            Interpreter::Powershell => same_text(os, "windows"),
            Interpreter::Pwsh => true,
            _ => same_text(os, "linux") || same_text(os, "macos"),
        }
    }

    /// Whether this is one of the two PowerShell interpreters.
    pub open spec fn is_powershell(self) -> bool {
        self is Powershell || self is Pwsh
    }
}

/// What a request runs: a program with an argument array, or a script for a
/// named interpreter. There is never a shell command line.
#[derive(Debug, Clone, PartialEq, Eq)]
pub enum Execution {
    Exec { program: String, args: Vec<String> },
    Script { interpreter: Interpreter, source: String, powershell_policy: PowerShellPolicy },
}

/// An execution as plain values.
pub enum ExecutionView {
    Exec { program: Seq<char>, args: Seq<Seq<char>> },
    Script { interpreter: Interpreter, source: Seq<char>, powershell_policy: PowerShellPolicy },
}

impl View for Execution {
    type V = ExecutionView;

    open spec fn view(&self) -> ExecutionView {
        match self {
            Execution::Exec { program, args } => ExecutionView::Exec {
                program: program@,
                args: texts(args@),
            },
            Execution::Script { interpreter, source, powershell_policy } => ExecutionView::Script {
                interpreter: *interpreter,
                source: source@,
                powershell_policy: *powershell_policy,
            },
        }
    }
}

/// A request to run one task on a paired agent.
#[derive(Debug, Clone, PartialEq, Eq)]
pub struct RemoteRequest {
    pub request_id: String,
    pub name: String,
    pub target: TargetIdentity,
    pub cwd: String,
    pub execution: Execution,
    pub timeout_seconds: u32,
    pub environment: EnvironmentMap,
    pub result_directory: Option<String>,
}

/// A request as plain values.
pub struct RequestView {
    pub request_id: Seq<char>,
    pub name: Seq<char>,
    pub agent_id: Seq<char>,
    pub node_id: Seq<char>,
    pub cwd: Seq<char>,
    pub execution: ExecutionView,
    pub timeout_seconds: u32,
    pub environment: Seq<(Seq<char>, Seq<char>)>,
    pub result_directory: Option<Seq<char>>,
}

impl View for RemoteRequest {
    type V = RequestView;

    open spec fn view(&self) -> RequestView {
        RequestView {
            request_id: self.request_id@,
            name: self.name@,
            agent_id: self.target.agent_id@,
            node_id: self.target.node_id@,
            cwd: self.cwd@,
            execution: self.execution@,
            timeout_seconds: self.timeout_seconds,
            environment: self.environment@,
            result_directory: match self.result_directory {
                Some(d) => Some(d@),
                None => None,
            },
        }
    }
}

/// A text the UUID parser accepts.
pub open spec fn uuid_ok(s: Seq<char>) -> bool {
    uuid_text(vstd::utf8::encode_utf8(s))
}

/// A required, bounded text: not blank, at most `max` bytes, no NUL.
pub open spec fn bounded_ok(v: Seq<char>, max: int) -> bool {
    !is_blank(v) && byte_len(v) <= max && !has_char(v, '\0')
}

/// A task name: not blank, at most 120 characters, no control character.
pub open spec fn name_ok(n: Seq<char>) -> bool {
    !is_blank(n) && n.len() <= 120 && !has_control(n)
}

/// An ASCII letter.
pub open spec fn ascii_alpha(c: char) -> bool {
    ('a' <= c && c <= 'z') || ('A' <= c && c <= 'Z')
}

/// An absolute path on `os`: a local drive path on Windows (letter, colon,
/// separator), a path from the root on Linux and macOS, nothing elsewhere.
pub open spec fn absolute_path(path: Seq<char>, os: Seq<char>) -> bool {
    if os == "windows"@ {
        path.len() >= 3 && ascii_alpha(path[0]) && path[1] == ':' && (path[2] == '/' || path[2]
            == '\\')
    } else {
        (os == "linux"@ || os == "macos"@) && path.len() > 0 && path[0] == '/'
    }
}

/// A working directory: absolute on `os`, at most 4096 bytes, no NUL.
pub open spec fn cwd_ok(cwd: Seq<char>, os: Seq<char>) -> bool {
    absolute_path(cwd, os) && byte_len(cwd) <= 4096 && !has_char(cwd, '\0')
}

/// A timeout from one second to one day.
pub open spec fn timeout_ok(t: u32) -> bool {
    1 <= t && t <= 86400
}

/// The bytes of the names and values of an environment.
pub open spec fn pair_bytes(env: Seq<(Seq<char>, Seq<char>)>) -> int
    decreases env.len(),
{
    if env.len() == 0 {
        0
    } else {
        pair_bytes(env.drop_last()) + byte_len(env.last().0) + byte_len(env.last().1)
    }
}

/// The bytes of a list of texts.
pub open spec fn text_bytes(s: Seq<Seq<char>>) -> int
    decreases s.len(),
{
    if s.len() == 0 {
        0
    } else {
        text_bytes(s.drop_last()) + byte_len(s.last())
    }
}

/// An environment of at most 50 names and at most 16384 bytes.
pub open spec fn env_within_limits(env: Seq<(Seq<char>, Seq<char>)>) -> bool {
    env.len() <= 50 && pair_bytes(env) <= 16384
}

/// A name and value the agent can pass to a process.
pub open spec fn entry_ok(name: Seq<char>, value: Seq<char>) -> bool {
    name.len() > 0 && !has_char(name, '=') && !has_char(name, '\0') && !has_char(value, '\0')
}

/// How names are compared for duplicates: Windows ignores case.
pub open spec fn comparable_name(name: Seq<char>, windows: bool) -> Seq<char> {
    if windows {
        unicode_upper(name)
    } else {
        name
    }
}

/// The first problem among the first `n` pairs, in order: a malformed pair,
/// or a name equal (as compared on the system) to an earlier one.
pub open spec fn env_scan(env: Seq<(Seq<char>, Seq<char>)>, windows: bool, n: nat) -> Option<Seq<char>>
    decreases n,
{
    if n == 0 {
        None
    } else {
        match env_scan(env, windows, (n - 1) as nat) {
            Some(e) => Some(e),
            None => {
                let k = n - 1;
                if !entry_ok(env[k].0, env[k].1) {
                    Some("INVALID_ENVIRONMENT"@)
                } else if exists|j: int|
                    0 <= j < k && #[trigger] comparable_name(env[j].0, windows) == comparable_name(
                        env[k].0,
                        windows,
                    ) {
                    Some("DUPLICATE_ENVIRONMENT"@)
                } else {
                    None
                }
            },
        }
    }
}

/// The first problem of an environment's pairs, if any.
pub open spec fn env_problem(env: Seq<(Seq<char>, Seq<char>)>, windows: bool) -> Option<Seq<char>> {
    env_scan(env, windows, env.len())
}

/// A list of arguments: at most 256, none holding NUL, at most 65536 bytes.
pub open spec fn args_ok(args: Seq<Seq<char>>) -> bool {
    args.len() <= 256 && (forall|i: int| 0 <= i < args.len() ==> !has_char(#[trigger] args[i], '\0'))
        && text_bytes(args) <= 65536
}

/// A batch file, which Windows would run through its shell parser.
pub open spec fn batch_program(program: Seq<char>) -> bool {
    ends_with(ascii_lower(program), ".cmd"@) || ends_with(ascii_lower(program), ".bat"@)
}

/// The first problem of an execution on `os`, if any.
pub open spec fn execution_problem(e: ExecutionView, os: Seq<char>) -> Option<Seq<char>> {
    match e {
        ExecutionView::Exec { program, args } => if !bounded_ok(program, 4096) {
            Some("INVALID_PROGRAM"@)
        } else if !args_ok(args) {
            Some("ARGUMENT_LIMIT"@)
        } else if os == "windows"@ && batch_program(program) {
            Some("USE_SCRIPT_MODE: 批处理须由显式解释器调用"@)
        } else {
            None
        },
        ExecutionView::Script { interpreter, source, powershell_policy } => if powershell_policy
            != PowerShellPolicy::Inherit && (os != "windows"@ || !interpreter.is_powershell()) {
            Some("INVALID_POWERSHELL_POLICY"@)
        } else if !interpreter_runs_on(interpreter, os) {
            Some("UNSUPPORTED_INTERPRETER"@)
        } else if is_blank(source) || byte_len(source) > MAX_SCRIPT_BYTES || has_char(source, '\0') {
            Some("SCRIPT_LIMIT"@)
        } else {
            None
        },
    }
}

/// Position `i` starts a path segment.
pub open spec fn seg_start(p: Seq<char>, i: int) -> bool {
    i == 0 || p[i - 1] == '/'
}

/// Position `i` ends a path segment.
pub open spec fn seg_end(p: Seq<char>, i: int) -> bool {
    i == p.len() || p[i] == '/'
}

/// An empty, `.` or `..` segment starts at position `i`.
pub open spec fn bad_segment_at(p: Seq<char>, i: int) -> bool {
    seg_start(p, i) && {
        ||| seg_end(p, i)
        ||| (i < p.len() && p[i] == '.' && seg_end(p, i + 1))
        ||| (i + 1 < p.len() && p[i] == '.' && p[i + 1] == '.' && seg_end(p, i + 2))
    }
}

/// A relative path that stays below its base: not empty, at most 4096 bytes,
/// no NUL, backslash or colon, not from the root, and every `/`-separated
/// segment a plain name (not empty, `.` or `..`).
pub open spec fn relative_ok(p: Seq<char>) -> bool {
    &&& p.len() > 0
    &&& byte_len(p) <= 4096
    &&& !has_char(p, '\0')
    &&& !has_char(p, '\\')
    &&& !has_char(p, ':')
    &&& p[0] != '/'
    &&& forall|i: int| 0 <= i <= p.len() ==> !#[trigger] bad_segment_at(p, i)
}

/// The first problem of a request bound for `os`, if any, in the order the
/// agent checks: ids, node, name, directory, timeout, environment,
/// execution, result directory.
pub open spec fn request_problem(r: RequestView, os: Seq<char>) -> Option<Seq<char>> {
    if !uuid_ok(r.request_id) {
        Some("INVALID_REQUEST_ID"@)
    } else if !uuid_ok(r.agent_id) {
        Some("INVALID_AGENT_ID"@)
    } else if !bounded_ok(r.node_id, 256) {
        Some("INVALID_NODE_ID"@)
    } else if !name_ok(r.name) {
        Some("INVALID_NAME: 任务名称需为 1–120 字符"@)
    } else if !cwd_ok(r.cwd, os) {
        Some("INVALID_DIRECTORY: 工作目录必须是目标系统的绝对路径"@)
    } else if !timeout_ok(r.timeout_seconds) {
        Some("INVALID_TIMEOUT: 超时需为 1–86400 秒"@)
    } else if !env_within_limits(r.environment) {
        Some("ENVIRONMENT_LIMIT"@)
    } else if env_problem(r.environment, os == "windows"@) is Some {
        env_problem(r.environment, os == "windows"@)
    } else if execution_problem(r.execution, os) is Some {
        execution_problem(r.execution, os)
    } else if r.result_directory matches Some(p) && !relative_ok(p) {
        Some("INVALID_RESULT_DIRECTORY"@)
    } else {
        None
    }
}

/// `bounded`: a required text of at most `max` bytes with no NUL; the
/// error names the field.
pub fn bounded(value: &str, max: usize, field: &str) -> (r: Result<(), String>)
    ensures
        r is Ok <==> bounded_ok(value@, max as int),
        r matches Err(e) ==> e@ == "INVALID_"@ + field@,
{
    if blank(value) || utf8_len(value) > max || contains_char(value, '\0') {
        Err(concat("INVALID_", field))
    } else {
        Ok(())
    }
}

/// Whether `path` is an absolute path on `os` (see `absolute_path`).
pub fn absolute_for(path: &str, os: &str) -> (r: bool)
    ensures
        r == absolute_path(path@, os@),
{
    let p = chars_of(path);
    if same_text(os, "windows") {
        p.len() >= 3 && (('a' <= p[0] && p[0] <= 'z') || ('A' <= p[0] && p[0] <= 'Z')) && p[1]
            == ':' && (p[2] == '/' || p[2] == '\\')
    } else {
        (same_text(os, "linux") || same_text(os, "macos")) && p.len() > 0 && p[0] == '/'
    }
}

/// Whether a segment of the path starts at position `i` and is empty, `.`
/// or `..`.
fn bad_segment(p: &Vec<char>, i: usize) -> (r: bool)
    requires
        i <= p.len(),
    ensures
        r == bad_segment_at(p@, i as int),
{
    let start = i == 0 || p[i - 1] == '/';
    if !start {
        return false;
    }
    let n = p.len();
    let empty = i == n || p[i] == '/';
    let dot = i < n && p[i] == '.' && (i + 1 == n || p[i + 1] == '/');
    let dots = i < n && i + 1 < n && p[i] == '.' && p[i + 1] == '.' && (i + 2 == n || p[i + 2] == '/');
    empty || dot || dots
}

/// Accepts exactly the relative paths of `relative_ok`: the result
/// directories and artifact names that cannot leave their base directory.
pub fn validate_relative(path: &str) -> (r: Result<(), String>)
    ensures
        r is Ok <==> relative_ok(path@),
        r matches Err(e) ==> e@ == "INVALID_RESULT_DIRECTORY"@,
{
    let p = chars_of(path);
    if p.len() == 0 || utf8_len(path) > 4096 || contains_char(path, '\0') || contains_char(path, '\\')
        || contains_char(path, ':') || p[0] == '/' {
        return Err(owned("INVALID_RESULT_DIRECTORY"));
    }
    let mut i: usize = 0;
    while i < p.len()
        invariant
            p@ == path@,
            i <= p.len(),
            forall|j: int| 0 <= j < i ==> !#[trigger] bad_segment_at(p@, j),
        decreases p.len() - i,
    {
        if bad_segment(&p, i) {
            return Err(owned("INVALID_RESULT_DIRECTORY"));
        }
        i += 1;
    }
    if bad_segment(&p, p.len()) {
        return Err(owned("INVALID_RESULT_DIRECTORY"));
    }
    Ok(())
}

/// `text_bytes` grows with the list.
proof fn text_bytes_prefix(s: Seq<Seq<char>>, i: int)
    requires
        0 <= i <= s.len(),
    ensures
        text_bytes(s.take(i)) <= text_bytes(s),
    decreases s.len() - i,
{
    if i < s.len() {
        text_bytes_prefix(s, i + 1);
        assert(s.take(i + 1).drop_last() =~= s.take(i));
    } else {
        assert(s.take(i) =~= s);
    }
}

/// `pair_bytes` grows with the list.
proof fn pair_bytes_prefix(s: Seq<(Seq<char>, Seq<char>)>, i: int)
    requires
        0 <= i <= s.len(),
    ensures
        pair_bytes(s.take(i)) <= pair_bytes(s),
    decreases s.len() - i,
{
    if i < s.len() {
        pair_bytes_prefix(s, i + 1);
        assert(s.take(i + 1).drop_last() =~= s.take(i));
    } else {
        assert(s.take(i) =~= s);
    }
}

/// Whether the texts hold at most `limit` bytes in all.
fn texts_within(parts: &Vec<String>, limit: usize) -> (r: bool)
    ensures
        r == (text_bytes(texts(parts@)) <= limit),
{
    let ghost all = texts(parts@);
    let mut total: usize = 0;
    let mut i: usize = 0;
    while i < parts.len()
        invariant
            all == texts(parts@),
            i <= parts.len(),
            total == text_bytes(all.take(i as int)),
            total <= limit,
        decreases parts.len() - i,
    {
        let n = utf8_len(parts[i].as_str());
        assert(all.take(i + 1).drop_last() =~= all.take(i as int));
        if n > limit - total {
            proof {
                text_bytes_prefix(all, i + 1);
            }
            return false;
        }
        total = total + n;
        i += 1;
    }
    assert(all.take(parts.len() as int) =~= all);
    true
}

/// Whether the pairs hold at most `limit` bytes in all.
fn pairs_within(pairs: &Vec<(String, String)>, limit: usize) -> (r: bool)
    ensures
        r == (pair_bytes(crate::environment::pairs_view(pairs@)) <= limit),
{
    let ghost all = crate::environment::pairs_view(pairs@);
    let mut total: usize = 0;
    let mut i: usize = 0;
    while i < pairs.len()
        invariant
            all == crate::environment::pairs_view(pairs@),
            i <= pairs.len(),
            total == pair_bytes(all.take(i as int)),
            total <= limit,
        decreases pairs.len() - i,
    {
        let a = utf8_len(pairs[i].0.as_str());
        let b = utf8_len(pairs[i].1.as_str());
        assert(all.take(i + 1).drop_last() =~= all.take(i as int));
        if a > limit - total || b > limit - total - a {
            proof {
                pair_bytes_prefix(all, i + 1);
            }
            return false;
        }
        total = total + a + b;
        i += 1;
    }
    assert(all.take(pairs.len() as int) =~= all);
    true
}

/// Once the scan has found a problem, scanning further keeps it.
proof fn env_scan_keeps_first(env: Seq<(Seq<char>, Seq<char>)>, windows: bool, m: nat, n: nat)
    requires
        m <= n,
        env_scan(env, windows, m) is Some,
    ensures
        env_scan(env, windows, n) == env_scan(env, windows, m),
    decreases n,
{
    if n > m {
        env_scan_keeps_first(env, windows, m, (n - 1) as nat);
    }
}

/// The environment checks in order: limits, then each pair.
fn check_environment(env: &EnvironmentMap, windows: bool) -> (r: Result<(), String>)
    ensures
        r is Ok <==> env_within_limits(env@) && env_problem(env@, windows) is None,
        r matches Err(e) ==> (!env_within_limits(env@) && e@ == "ENVIRONMENT_LIMIT"@) || (
        env_within_limits(env@) && env_problem(env@, windows) == Some(e@)),
{
    let pairs = env.pairs();
    if pairs.len() > 50 || !pairs_within(pairs, 16384) {
        return Err(owned("ENVIRONMENT_LIMIT"));
    }
    let ghost es = env@;
    let mut seen: Vec<String> = Vec::new();
    let mut i: usize = 0;
    while i < pairs.len()
        invariant
            es == env@,
            crate::environment::pairs_view(pairs@) == es,
            env_within_limits(es),
            i <= pairs.len(),
            env_scan(es, windows, i as nat) is None,
            seen@.len() == i,
            forall|j: int| 0 <= j < i ==> #[trigger] seen@[j]@ == comparable_name(es[j].0, windows),
        decreases pairs.len() - i,
    {
        let key = &pairs[i].0;
        let value = &pairs[i].1;
        assert(es[i as int] == (key@, value@));
        if key.as_str().is_empty() || contains_char(key.as_str(), '=') || contains_char(key.as_str(), '\0')
            || contains_char(value.as_str(), '\0') {
            proof {
                env_scan_keeps_first(es, windows, (i + 1) as nat, es.len());
            }
            return Err(owned("INVALID_ENVIRONMENT"));
        }
        let comparable = if windows {
            to_upper(key.as_str())
        } else {
            key.clone()
        };
        let mut j: usize = 0;
        let mut duplicate = false;
        while j < seen.len()
            invariant
                j <= seen.len(),
                duplicate == exists|m: int| 0 <= m < j && #[trigger] seen@[m]@ == comparable@,
            decreases seen.len() - j,
        {
            if seen[j] == comparable {
                duplicate = true;
            }
            j += 1;
        }
        if duplicate {
            proof {
                let m = choose|m: int| 0 <= m < seen@.len() && #[trigger] seen@[m]@ == comparable@;
                assert(comparable_name(es[m].0, windows) == comparable_name(es[i as int].0, windows));
                env_scan_keeps_first(es, windows, (i + 1) as nat, es.len());
            }
            return Err(owned("DUPLICATE_ENVIRONMENT"));
        }
        proof {
            assert forall|m: int| 0 <= m < i implies #[trigger] comparable_name(es[m].0, windows)
                != comparable_name(es[i as int].0, windows) by {
                assert(seen@[m]@ == comparable_name(es[m].0, windows));
            }
        }
        seen.push(comparable);
        i += 1;
    }
    Ok(())
}

/// The execution checks for `os` (see `execution_problem`).
fn check_execution(execution: &Execution, os: &str) -> (r: Result<(), String>)
    ensures
        r is Ok <==> execution_problem(execution@, os@) is None,
        r matches Err(e) ==> execution_problem(execution@, os@) == Some(e@),
{
    match execution {
        Execution::Exec { program, args } => {
            if bounded(program.as_str(), 4096, "PROGRAM").is_err() {
                return Err(owned("INVALID_PROGRAM"));
            }
            let mut nul = false;
            let mut i: usize = 0;
            while i < args.len()
                invariant
                    i <= args.len(),
                    nul == exists|j: int| 0 <= j < i && has_char(#[trigger] texts(args@)[j], '\0'),
                decreases args.len() - i,
            {
                assert(texts(args@)[i as int] == args@[i as int]@);
                if contains_char(args[i].as_str(), '\0') {
                    nul = true;
                }
                i += 1;
            }
            if args.len() > 256 || nul || !texts_within(args, 65536) {
                return Err(owned("ARGUMENT_LIMIT"));
            }
            let windows = same_text(os, "windows");
            if windows {
                let p = chars_of(program.as_str());
                let cmd = chars_of(".cmd");
                let bat = chars_of(".bat");
                proof {
                    reveal_strlit(".cmd");
                    reveal_strlit(".bat");
                }
                if ends_with_ignoring_ascii_case(&p, &cmd) || ends_with_ignoring_ascii_case(&p, &bat) {
                    return Err(owned("USE_SCRIPT_MODE: 批处理须由显式解释器调用"));
                }
            }
            Ok(())
        },
        Execution::Script { interpreter, source, powershell_policy } => {
            let powershell = match interpreter {
                Interpreter::Powershell => true,
                Interpreter::Pwsh => true,
                _ => false,
            };
            let inherit = match powershell_policy {
                PowerShellPolicy::Inherit => true,
                PowerShellPolicy::ProcessRemoteSigned => false,
            };
            if !inherit && (!same_text(os, "windows") || !powershell) {
                return Err(owned("INVALID_POWERSHELL_POLICY"));
            }
            if !interpreter.compatible(os) {
                return Err(owned("UNSUPPORTED_INTERPRETER"));
            }
            if blank(source.as_str()) || utf8_len(source.as_str()) > MAX_SCRIPT_BYTES || contains_char(
                source.as_str(),
                '\0',
            ) {
                return Err(owned("SCRIPT_LIMIT"));
            }
            Ok(())
        },
    }
}

impl RemoteRequest {
    /// The checks every request passes, for the system `os`, except its
    /// encoded size: `Ok` exactly when `request_problem` finds nothing, else
    /// the first problem.
    pub fn check_fields(&self, os: &str) -> (r: Result<(), String>)
        ensures
            r is Ok <==> request_problem(self@, os@) is None,
            r matches Err(e) ==> request_problem(self@, os@) == Some(e@),
    {
        if !uuid_parses(self.request_id.as_str()) {
            return Err(owned("INVALID_REQUEST_ID"));
        }
        if !uuid_parses(self.target.agent_id.as_str()) {
            return Err(owned("INVALID_AGENT_ID"));
        }
        if bounded(self.target.node_id.as_str(), 256, "NODE_ID").is_err() {
            return Err(owned("INVALID_NODE_ID"));
        }
        if blank(self.name.as_str()) || self.name.as_str().unicode_len() > 120 || any_control(
            self.name.as_str(),
        ) {
            return Err(owned("INVALID_NAME: 任务名称需为 1–120 字符"));
        }
        if !absolute_for(self.cwd.as_str(), os) || utf8_len(self.cwd.as_str()) > 4096 || contains_char(
            self.cwd.as_str(),
            '\0',
        ) {
            return Err(owned("INVALID_DIRECTORY: 工作目录必须是目标系统的绝对路径"));
        }
        if !(1 <= self.timeout_seconds && self.timeout_seconds <= 86400) {
            return Err(owned("INVALID_TIMEOUT: 超时需为 1–86400 秒"));
        }
        check_environment(&self.environment, same_text(os, "windows"))?;
        check_execution(&self.execution, os)?;
        if let Some(path) = &self.result_directory {
            validate_relative(path.as_str())?;
        }
        Ok(())
    }

    /// Everything `check_fields` checks, and that the request's JSON
    /// encoding (`encoded_len` bytes) fits the request limit.
    pub fn validate(&self, os: &str, encoded_len: usize) -> (r: Result<(), String>)
        ensures
            r is Ok <==> request_problem(self@, os@) is None && encoded_len <= MAX_REQUEST_BYTES,
            r matches Err(e) ==> match request_problem(self@, os@) {
                Some(p) => e@ == p,
                None => e@ == "REQUEST_LIMIT"@,
            },
    {
        self.check_fields(os)?;
        if encoded_len > MAX_REQUEST_BYTES {
            return Err(owned("REQUEST_LIMIT"));
        }
        Ok(())
    }

    /// The content a request's idempotency hash covers: the request with its
    /// id cleared, so retries under another id have the same material and
    /// any other change changes the material.
    pub fn hash_material(&self) -> (r: RemoteRequest)
        ensures
            r@ == (RequestView { request_id: Seq::empty(), ..self@ }),
    {
        let mut args_copy: Vec<String> = Vec::new();
        let execution = match &self.execution {
            Execution::Exec { program, args } => {
                let mut i: usize = 0;
                while i < args.len()
                    invariant
                        i <= args.len(),
                        args_copy@.len() == i,
                        forall|j: int| 0 <= j < i ==> #[trigger] args_copy@[j]@ == args@[j]@,
                    decreases args.len() - i,
                {
                    args_copy.push(args[i].clone());
                    i += 1;
                }
                assert(texts(args_copy@) =~= texts(args@));
                Execution::Exec { program: program.clone(), args: args_copy }
            },
            Execution::Script { interpreter, source, powershell_policy } => Execution::Script {
                interpreter: *interpreter,
                source: source.clone(),
                powershell_policy: *powershell_policy,
            },
        };
        let result_directory = match &self.result_directory {
            Some(d) => Some(d.clone()),
            None => None,
        };
        RemoteRequest {
            request_id: String::new(),
            name: self.name.clone(),
            target: TargetIdentity {
                agent_id: self.target.agent_id.clone(),
                node_id: self.target.node_id.clone(),
            },
            cwd: self.cwd.clone(),
            execution,
            timeout_seconds: self.timeout_seconds,
            environment: self.environment.clone(),
            result_directory,
        }
    }

    /// The idempotency hash of a request from the JSON encoding of its
    /// `hash_material`: the lower-case hex SHA-256 of those bytes.
    pub fn content_hash(encoded_material: &[u8]) -> (h: String)
        ensures
            h@ == hex_text(sha256(encoded_material@)),
            h@.len() == 64,
    {
        hex_digest(encoded_material)
    }
}

/// The lower-case hex SHA-256 of `bytes` (64 characters).
pub fn hex_digest(bytes: &[u8]) -> (h: String)
    ensures
        h@ == hex_text(sha256(bytes@)),
        h@.len() == 64,
{
    let d = sha256_digest(bytes);
    hex_lower(d.as_slice())
}

/// The lower-case hex SHA-256 of the UTF-8 bytes of a text.
pub fn hex_digest_text(s: &str) -> (h: String)
    ensures
        h@ == hex_text(sha256(vstd::utf8::encode_utf8(s@))),
        h@.len() == 64,
{
    hex_digest(s.as_bytes())
}

/// What an agent tells a controller about itself.
#[derive(Debug, Clone)]
pub struct AgentCapabilities {
    pub protocol_version: u32,
    pub identity: TargetIdentity,
    pub os: String,
    pub account: String,
    pub allowed_directories: Vec<String>,
    pub interpreters: Vec<Interpreter>,
    pub concurrency: u8,
    pub accepting: bool,
}

/// The states of a remote task.
#[derive(Debug, Clone, Copy, PartialEq, Eq, Structural)]
pub enum RemoteState {
    Queued,
    Starting,
    Running,
    Cancelling,
    Succeeded,
    Failed,
    Cancelled,
    TimedOut,
    RecoveryRequired,
}

/// The final states: once there, a task never moves again.
pub open spec fn is_terminal(s: RemoteState) -> bool {
    s is Succeeded || s is Failed || s is Cancelled || s is TimedOut || s is RecoveryRequired
}

/// The stored name of each state.
pub open spec fn state_text(s: RemoteState) -> Seq<char> {
    match s {
        RemoteState::Queued => "queued"@,
        RemoteState::Starting => "starting"@,
        RemoteState::Running => "running"@,
        RemoteState::Cancelling => "cancelling"@,
        RemoteState::Succeeded => "succeeded"@,
        RemoteState::Failed => "failed"@,
        RemoteState::Cancelled => "cancelled"@,
        RemoteState::TimedOut => "timed_out"@,
        RemoteState::RecoveryRequired => "recovery_required"@,
    }
}

impl RemoteState {
    /// Whether the state is final.
    pub fn terminal(self) -> (r: bool)
        ensures
            r == is_terminal(self),
    {
        match self {
            RemoteState::Succeeded | RemoteState::Failed | RemoteState::Cancelled
            | RemoteState::TimedOut | RemoteState::RecoveryRequired => true,
            _ => false,
        }
    }

    /// The stored name of the state.
    pub fn as_str(self) -> (r: &'static str)
        ensures
            r@ == state_text(self),
    {
        match self {
            RemoteState::Queued => "queued",
            RemoteState::Starting => "starting",
            RemoteState::Running => "running",
            RemoteState::Cancelling => "cancelling",
            RemoteState::Succeeded => "succeeded",
            RemoteState::Failed => "failed",
            RemoteState::Cancelled => "cancelled",
            RemoteState::TimedOut => "timed_out",
            RemoteState::RecoveryRequired => "recovery_required",
        }
    }
}

impl RemoteState {
    /// The state stored under `name`, if any.
    pub fn from_name(name: &str) -> (r: Option<RemoteState>)
        ensures
            match r {
                Some(s) => state_text(s) == name@,
                None => forall|s: RemoteState| state_text(s) != name@,
            },
    {
        if same_text(name, "queued") {
            Some(RemoteState::Queued)
        } else if same_text(name, "starting") {
            Some(RemoteState::Starting)
        } else if same_text(name, "running") {
            Some(RemoteState::Running)
        } else if same_text(name, "cancelling") {
            Some(RemoteState::Cancelling)
        } else if same_text(name, "succeeded") {
            Some(RemoteState::Succeeded)
        } else if same_text(name, "failed") {
            Some(RemoteState::Failed)
        } else if same_text(name, "cancelled") {
            Some(RemoteState::Cancelled)
        } else if same_text(name, "timed_out") {
            Some(RemoteState::TimedOut)
        } else if same_text(name, "recovery_required") {
            Some(RemoteState::RecoveryRequired)
        } else {
            None
        }
    }
}

/// Every state has its own stored name: reading back the name of a state
/// gives that state.
pub proof fn state_names_are_distinct(a: RemoteState, b: RemoteState)
    ensures
        state_text(a) == state_text(b) ==> a == b,
{
    reveal_strlit("queued");
    reveal_strlit("starting");
    reveal_strlit("running");
    reveal_strlit("cancelling");
    reveal_strlit("succeeded");
    reveal_strlit("failed");
    reveal_strlit("cancelled");
    reveal_strlit("timed_out");
    reveal_strlit("recovery_required");
    if state_text(a) == state_text(b) {
        let t = state_text(a);
        assert(t.len() == state_text(b).len());
        if t.len() > 0 {
            assert(t[0] == state_text(b)[0]);
        }
        if t.len() > 1 {
            assert(t[1] == state_text(b)[1]);
        }
    }
}

/// One line of a remote task's event stream.
#[derive(Debug, Clone)]
pub struct RemoteEvent {
    pub seq: i64,
    pub task_id: String,
    pub kind: String,
    pub text: String,
    pub occurred_at: String,
}

/// A result file collected from a remote task.
#[derive(Debug, Clone)]
pub struct Artifact {
    pub id: String,
    pub task_id: String,
    pub name: String,
    pub size: u64,
    pub sha256: String,
}

/// The idempotency hash ignores the request id: two requests that differ
/// only in their ids have the same hash material.
pub proof fn hash_material_ignores_request_id(a: RequestView, b: RequestView)
    requires
        (RequestView { request_id: b.request_id, ..a }) == b,
    ensures
        (RequestView { request_id: Seq::empty(), ..a }) == (RequestView { request_id: Seq::empty(), ..b }),
{
}

/// The idempotency hash ignores the order environment names were set in:
/// two requests that differ only in their ids and in how their (ascending)
/// environments were built, holding the same pairs, have the same hash
/// material.
pub proof fn hash_material_ignores_environment_order(a: RequestView, b: RequestView)
    requires
        (RequestView { request_id: b.request_id, environment: b.environment, ..a }) == b,
        crate::environment::names_ascending(a.environment),
        crate::environment::names_ascending(b.environment),
        forall|p: (Seq<char>, Seq<char>)| a.environment.contains(p) <==> b.environment.contains(p),
    ensures
        (RequestView { request_id: Seq::empty(), ..a }) == (RequestView { request_id: Seq::empty(), ..b }),
{
    crate::environment::ascending_pairs_are_determined_by_their_contents(a.environment, b.environment);
}

/// The POSIX shells run on Linux and macOS and not on Windows; Windows
/// PowerShell runs only on Windows; PowerShell 7 runs everywhere.
pub proof fn interpreters_run_where_they_are_installed(i: Interpreter)
    ensures
        (i is Sh || i is Bash || i is Zsh) ==> interpreter_runs_on(i, "linux"@) && interpreter_runs_on(i, "macos"@)
            && !interpreter_runs_on(i, "windows"@),
        i is Powershell ==> interpreter_runs_on(i, "windows"@) && !interpreter_runs_on(i, "linux"@)
            && !interpreter_runs_on(i, "macos"@),
        i is Pwsh ==> interpreter_runs_on(i, "windows"@) && interpreter_runs_on(i, "linux"@) && interpreter_runs_on(
            i,
            "macos"@,
        ),
{
    reveal_strlit("linux");
    reveal_strlit("macos");
    reveal_strlit("windows");
    assert("linux"@.len() != "windows"@.len());
    assert("macos"@.len() != "windows"@.len());
    assert("linux"@[0] != "macos"@[0]);
}

/// Linux and macOS agents accept the same requests: a request refused on
/// one is refused on the other with the same error, and a request accepted
/// on one is accepted on the other.
pub proof fn linux_and_macos_accept_the_same_requests(r: RequestView)
    ensures
        request_problem(r, "linux"@) == request_problem(r, "macos"@),
{
    reveal_strlit("linux");
    reveal_strlit("macos");
    reveal_strlit("windows");
    assert("linux"@.len() != "windows"@.len());
    assert("macos"@.len() != "windows"@.len());
    assert(cwd_ok(r.cwd, "linux"@) == cwd_ok(r.cwd, "macos"@));
    assert(execution_problem(r.execution, "linux"@) == execution_problem(r.execution, "macos"@));
}

} // verus!
