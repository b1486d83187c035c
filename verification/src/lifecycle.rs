//! Starting the local agent in the background and reporting its state:
//! which program runs it, how a start is confirmed, and what the desktop
//! is told.

use crate::identity::AgentConfig;
use crate::service::OwnerStatus;
use crate::text::{chars_of, concat, owned, same_text, slice_chars, starts_with, string_of};
use vstd::prelude::*;

verus! {

broadcast use vstd::string::group_string_axioms;

/// The first argument that makes the program serve as the agent.
pub const SERVE_FLAG: &'static str = "--xiangwriter-agent";

/// The first argument that makes the program run one task as a worker.
pub const WORKER_FLAG: &'static str = "--xiangwriter-task-worker";

/// The number of status polls a start waits for the agent to answer.
pub const START_POLLS: u32 = 30;

/// The number of characters of the agent's start-up errors reported.
pub const START_ERROR_CHARS: usize = 2000;

/// Whether `path` lies within `root`, both in canonical form: the same
/// path, or `root` followed by a separator and more.
pub open spec fn within(path: Seq<char>, root: Seq<char>) -> bool {
    ||| path == root
    ||| (root.len() > 0 && root.last() == '/' && starts_with(path, root))
    ||| starts_with(path, root + seq!['/'])
}

fn is_within(path: &str, root: &str) -> (r: bool)
    ensures
        r == within(path@, root@),
{
    let p = chars_of(path);
    let r = chars_of(root);
    if same_text(path, root) {
        return true;
    }
    if r.len() > 0 && r[r.len() - 1] == '/' {
        if crate::text::has_prefix(&p, root) {
            return true;
        }
    }
    if p.len() > r.len() && p[r.len()] == '/' && crate::text::has_prefix(&p, root) {
        assert(p@.subrange(0, (root@ + seq!['/']).len() as int) =~= root@ + seq!['/']);
        return true;
    }
    proof {
        if starts_with(path@, root@ + seq!['/']) {
            let q = root@ + seq!['/'];
            assert(path@.subrange(0, q.len() as int) == q);
            assert forall|k: int| 0 <= k < root@.len() implies path@[k] == root@[k] by {
                assert(path@.subrange(0, q.len() as int)[k] == q[k]);
            }
            assert(path@.subrange(0, root@.len() as int) =~= root@);
            assert(path@[root@.len() as int] == '/') by {
                assert(path@.subrange(0, q.len() as int)[root@.len() as int] == q[root@.len() as int]);
            }
        }
    }
    false
}

/// The program a background agent is started from, inside an AppImage:
/// a program inside the image's mount runs from the durable image file,
/// so that the image's own runtime keeps a mount alive after the desktop
/// exits. `mounted` is the mount directory in canonical form (`None` where
/// it cannot be resolved), `image_is_file` whether the image path is an
/// absolute path of a file, and `image` the image in canonical form.
pub open spec fn appimage_choice(current: Seq<char>, mounted: Option<Seq<char>>, image_is_file: bool, image: Option<Seq<char>>) -> Result<Seq<char>, Seq<char>> {
    match mounted {
        None => Err("APPIMAGE_MOUNT_UNAVAILABLE"@),
        Some(m) => if !within(current, m) {
            Ok(current)
        } else if !image_is_file {
            Err("APPIMAGE_PATH_UNAVAILABLE"@)
        } else {
            match image {
                Some(i) => Ok(i),
                None => Err("APPIMAGE_PATH_UNAVAILABLE"@),
            }
        },
    }
}

/// The program a background agent is started from, inside an AppImage.
pub fn appimage_executable(current: &str, mounted: Option<&str>, image_is_file: bool, image: Option<&str>) -> (r: Result<String, String>)
    ensures
        match appimage_choice(current@, match mounted {
            Some(m) => Some(m@),
            None => None,
        }, image_is_file, match image {
            Some(i) => Some(i@),
            None => None,
        }) {
            Ok(p) => r matches Ok(s) && s@ == p,
            Err(e) => r matches Err(m) && m@ == e,
        },
{
    let m = match mounted {
        None => {
            return Err(owned("APPIMAGE_MOUNT_UNAVAILABLE"));
        },
        Some(m) => m,
    };
    if !is_within(current, m) {
        return Ok(owned(current));
    }
    if !image_is_file {
        return Err(owned("APPIMAGE_PATH_UNAVAILABLE"));
    }
    match image {
        Some(i) => Ok(owned(i)),
        None => Err(owned("APPIMAGE_PATH_UNAVAILABLE")),
    }
}

/// What the desktop is told about the local agent.
#[derive(Debug, Clone)]
pub struct LocalAgentState {
    pub state: String,
    pub status: Option<OwnerStatus>,
    pub config: Option<AgentConfig>,
    pub error: Option<String>,
}

/// The state of an agent that has no configuration.
pub fn not_configured() -> (r: LocalAgentState)
    ensures
        r.state@ == "not_configured"@,
        r.status is None && r.config is None && r.error is None,
{
    LocalAgentState { state: owned("not_configured"), status: None, config: None, error: None }
}

/// The state of a configured agent, from its owner status answer: running
/// where it answered, unreachable with the error where it did not.
pub fn observed(config: AgentConfig, answer: Result<OwnerStatus, String>) -> (r: LocalAgentState)
    ensures
        r.config == Some(config),
        match answer {
            Ok(s) => r.state@ == "running"@ && r.status == Some(s) && r.error is None,
            Err(e) => r.state@ == "unreachable"@ && r.status is None && r.error == Some(e),
        },
{
    match answer {
        Ok(s) => LocalAgentState { state: owned("running"), status: Some(s), config: Some(config), error: None },
        Err(e) => LocalAgentState { state: owned("unreachable"), status: None, config: Some(config), error: Some(e) },
    }
}

/// The check before the agent's settings are replaced: a running agent is
/// stopped first.
pub fn check_not_running(current: &LocalAgentState) -> (r: Result<(), String>)
    ensures
        r is Ok <==> current.state@ != "running"@,
        r matches Err(e) ==> e@ == "AGENT_ALREADY_RUNNING: 修改设置前请先停止执行端"@,
{
    if same_text(current.state.as_str(), "running") {
        return Err(owned("AGENT_ALREADY_RUNNING: 修改设置前请先停止执行端"));
    }
    Ok(())
}

/// The error of an agent that exited during start, with the first 2000
/// characters of what it wrote to its error log.
pub fn start_failure(log: &str) -> (r: String)
    ensures
        r@ == "AGENT_START_FAILED: "@ + (if log@.len() <= START_ERROR_CHARS {
            log@
        } else {
            log@.take(START_ERROR_CHARS as int)
        }),
{
    let v = chars_of(log);
    let end = if v.len() <= START_ERROR_CHARS {
        v.len()
    } else {
        START_ERROR_CHARS
    };
    let kept = slice_chars(&v, 0, end);
    assert(v@.subrange(0, v@.len() as int) =~= v@);
    let text = string_of(&kept);
    concat("AGENT_START_FAILED: ", text.as_str())
}

/// What a start does after a poll.
#[derive(Debug, Clone, Copy, PartialEq, Eq, Structural)]
pub enum StartStep {
    /// The agent exited: report its error log.
    Failed,
    /// The agent answers as running.
    Started,
    /// Wait and poll again.
    Wait,
    /// No answer after the last poll: wait as after any other poll, then
    /// stop the agent and report it.
    GiveUp,
}

/// The step after poll number `poll` (from 0): an exited agent has failed;
/// an agent that answers as running has started; otherwise the start waits
/// and polls again, until the last poll, after whose wait it gives up.
pub open spec fn start_step_of(poll: u32, exited: bool, running: bool) -> StartStep {
    if exited {
        StartStep::Failed
    } else if running {
        StartStep::Started
    } else if poll + 1 < START_POLLS {
        StartStep::Wait
    } else {
        StartStep::GiveUp
    }
}

/// The step a start takes after a poll.
pub fn start_step(poll: u32, exited: bool, running: bool) -> (r: StartStep)
    requires
        poll < START_POLLS,
    ensures
        r == start_step_of(poll, exited, running),
{
    if exited {
        StartStep::Failed
    } else if running {
        StartStep::Started
    } else if poll + 1 < START_POLLS {
        StartStep::Wait
    } else {
        StartStep::GiveUp
    }
}

/// The error of a start that was never confirmed.
pub open spec fn start_not_confirmed_text() -> Seq<char> {
    "AGENT_START_NOT_CONFIRMED"@
}

/// A start ends within the poll budget: the last poll never leads to
/// another poll.
pub proof fn starts_end_within_the_polls(exited: bool, running: bool)
    ensures
        start_step_of((START_POLLS - 1) as u32, exited, running) != StartStep::Wait,
{
}

} // verus!
