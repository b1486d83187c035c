//! The local maintenance model: repair requests, observed devices, network
//! snapshots and the lifecycle of a repair task.

use crate::outside::{uuid_parses, uuid_text};
use crate::text::{concat, join, joined, owned, same_text, texts, utf8_len};
use vstd::prelude::*;

verus! {

broadcast use vstd::string::group_string_axioms;

/// The two maintenance actions a repair request may name.
#[derive(Debug, Clone, Copy, PartialEq, Eq, Structural)]
pub enum RepairAction {
    CheckDatabase,
    RebuildIndexes,
}

impl RepairAction {
    /// The stored key of the action.
    pub open spec fn key_text(self) -> Seq<char> {
        match self {
            RepairAction::CheckDatabase => "check_database"@,
            RepairAction::RebuildIndexes => "rebuild_indexes"@,
        }
    }

    /// The stored key of the action.
    pub fn key(&self) -> (r: &'static str)
        ensures
            r@ == self.key_text(),
    {
        match self {
            RepairAction::CheckDatabase => "check_database",
            RepairAction::RebuildIndexes => "rebuild_indexes",
        }
    }

    /// The label shown for the action.
    pub open spec fn label_text(self) -> Seq<char> {
        match self {
            RepairAction::CheckDatabase => "检查应用数据库"@,
            RepairAction::RebuildIndexes => "重建应用数据库索引"@,
        }
    }

    /// The label shown for the action.
    pub fn label(&self) -> (r: &'static str)
        ensures
            r@ == self.label_text(),
    {
        match self {
            RepairAction::CheckDatabase => "检查应用数据库",
            RepairAction::RebuildIndexes => "重建应用数据库索引",
        }
    }

    /// The action whose key is `key`, if any: the allow-list of actions a
    /// stored task may run.
    pub fn from_key(key: &str) -> (r: Option<RepairAction>)
        ensures
            r matches Some(a) ==> a.key_text() == key@,
            r is None ==> key@ != "check_database"@ && key@ != "rebuild_indexes"@,
    {
        if same_text(key, "check_database") {
            Some(RepairAction::CheckDatabase)
        } else if same_text(key, "rebuild_indexes") {
            Some(RepairAction::RebuildIndexes)
        } else {
            None
        }
    }
}

/// A request to run one maintenance action, named by a client-chosen id.
#[derive(Debug, Clone)]
pub struct RepairRequest {
    pub request_id: String,
    pub action: RepairAction,
}

/// The text of the error for a request id that is not a UUID.
pub open spec fn invalid_repair_request_text() -> Seq<char> {
    "INVALID_REQUEST: request_id 必须为 UUID"@
}

impl RepairRequest {
    /// Accepts exactly the requests whose id is a UUID.
    pub fn validate(&self) -> (r: Result<(), String>)
        ensures
            r is Ok <==> uuid_text(vstd::utf8::encode_utf8(self.request_id@)),
            r matches Err(e) ==> e@ == invalid_repair_request_text(),
    {
        if uuid_parses(self.request_id.as_str()) {
            Ok(())
        } else {
            Err(owned("INVALID_REQUEST: request_id 必须为 UUID"))
        }
    }

    /// The check `submit` makes against the task already stored under this
    /// request id: a retry must name the same action.
    pub fn matches_task(&self, task: &Task) -> (r: Result<(), String>)
        ensures
            r is Ok <==> task.action@ == self.action.key_text(),
            r matches Err(e) ==> e@ == "IDEMPOTENCY_CONFLICT"@,
    {
        if same_text(task.action.as_str(), self.action.key()) {
            Ok(())
        } else {
            Err(owned("IDEMPOTENCY_CONFLICT"))
        }
    }
}

/// A device as the network reports it, with the user's local preferences.
#[derive(Debug, Clone)]
pub struct Device {
    pub node_id: String,
    pub name: String,
    pub dns_name: String,
    pub os: String,
    pub addresses: Vec<String>,
    pub online: Option<bool>,
    pub is_self: bool,
    pub last_seen: Option<String>,
    pub alias: String,
    pub favorite: bool,
    pub observed_at: String,
    pub visible: bool,
}

/// One observation of the network: its state, its identity and its devices.
#[derive(Debug, Clone)]
pub struct NetworkSnapshot {
    pub state: String,
    pub version: String,
    pub network: String,
    pub context_id: String,
    pub observed_at: String,
    pub devices: Vec<Device>,
    pub error: Option<String>,
}

/// The views of a list of strings.
pub open spec fn text_list(v: Seq<String>) -> Seq<Seq<char>> {
    v.map_values(|s: String| s@)
}

/// A device as plain values.
pub struct DeviceView {
    pub node_id: Seq<char>,
    pub name: Seq<char>,
    pub dns_name: Seq<char>,
    pub os: Seq<char>,
    pub addresses: Seq<Seq<char>>,
    pub online: Option<bool>,
    pub is_self: bool,
    pub last_seen: Option<Seq<char>>,
    pub alias: Seq<char>,
    pub favorite: bool,
    pub observed_at: Seq<char>,
    pub visible: bool,
}

impl View for Device {
    type V = DeviceView;

    open spec fn view(&self) -> DeviceView {
        DeviceView {
            node_id: self.node_id@,
            name: self.name@,
            dns_name: self.dns_name@,
            os: self.os@,
            addresses: text_list(self.addresses@),
            online: self.online,
            is_self: self.is_self,
            last_seen: opt_text(self.last_seen),
            alias: self.alias@,
            favorite: self.favorite,
            observed_at: self.observed_at@,
            visible: self.visible,
        }
    }
}

/// The views of a list of devices.
pub open spec fn device_list(v: Seq<Device>) -> Seq<DeviceView> {
    v.map_values(|d: Device| d@)
}

/// A network observation as plain values.
pub struct SnapshotView {
    pub state: Seq<char>,
    pub version: Seq<char>,
    pub network: Seq<char>,
    pub context_id: Seq<char>,
    pub observed_at: Seq<char>,
    pub devices: Seq<DeviceView>,
    pub error: Option<Seq<char>>,
}

impl View for NetworkSnapshot {
    type V = SnapshotView;

    open spec fn view(&self) -> SnapshotView {
        SnapshotView {
            state: self.state@,
            version: self.version@,
            network: self.network@,
            context_id: self.context_id@,
            observed_at: self.observed_at@,
            devices: device_list(self.devices@),
            error: opt_text(self.error),
        }
    }
}

/// Whether an observation confirms the network identity `requested`.
pub open spec fn confirms_context(state: Seq<char>, context: Seq<char>, requested: Seq<char>) -> bool {
    state == "ready"@ && context.len() > 0 && context == requested
}

impl NetworkSnapshot {
    /// Succeeds exactly when the snapshot is ready and its non-empty network
    /// identity is `requested`.
    pub fn require_context(&self, requested: &str) -> (r: Result<(), String>)
        ensures
            r is Ok <==> confirms_context(self.state@, self.context_id@, requested@),
            r matches Err(e) ==> e@ == "CONTEXT_CHANGED: 网络身份已变化或未确认，请刷新设备"@,
    {
        if !same_text(self.state.as_str(), "ready") || self.context_id.as_str().is_empty()
            || !same_text(self.context_id.as_str(), requested) {
            return Err(owned("CONTEXT_CHANGED: 网络身份已变化或未确认，请刷新设备"));
        }
        Ok(())
    }

    /// The check `save_snapshot` makes before storing devices: only a ready
    /// snapshot with a network identity is stored.
    pub fn check_storable(&self) -> (r: Result<(), String>)
        ensures
            r is Ok <==> self.state@ == "ready"@ && self.context_id@.len() > 0,
            r matches Err(e) ==> e@ == "INVALID_CONTEXT"@,
    {
        if !same_text(self.state.as_str(), "ready") || self.context_id.as_str().is_empty() {
            return Err(owned("INVALID_CONTEXT"));
        }
        Ok(())
    }
}

/// The check `update_device` makes on an alias: at most 120 characters.
pub fn check_alias(alias: &str) -> (r: Result<(), String>)
    ensures
        r is Ok <==> alias@.len() <= 120,
        r matches Err(e) ==> e@ == "别名不能超过 120 字符"@,
{
    if alias.unicode_len() > 120 {
        return Err(owned("别名不能超过 120 字符"));
    }
    Ok(())
}

/// A stored repair task.
#[derive(Debug, Clone)]
pub struct Task {
    pub id: String,
    pub request_id: String,
    pub action: String,
    pub label: String,
    pub state: String,
    pub created_at: String,
    pub started_at: Option<String>,
    pub finished_at: Option<String>,
    pub result: Option<String>,
    pub scope: String,
    pub persistence_warning: Option<String>,
}

/// The view of an optional text.
pub open spec fn opt_text(o: Option<String>) -> Option<Seq<char>> {
    match o {
        Some(s) => Some(s@),
        None => None,
    }
}

/// A repair task as plain values.
pub struct TaskView {
    pub id: Seq<char>,
    pub request_id: Seq<char>,
    pub action: Seq<char>,
    pub label: Seq<char>,
    pub state: Seq<char>,
    pub created_at: Seq<char>,
    pub started_at: Option<Seq<char>>,
    pub finished_at: Option<Seq<char>>,
    pub result: Option<Seq<char>>,
    pub scope: Seq<char>,
    pub persistence_warning: Option<Seq<char>>,
}

impl View for Task {
    type V = TaskView;

    open spec fn view(&self) -> TaskView {
        TaskView {
            id: self.id@,
            request_id: self.request_id@,
            action: self.action@,
            label: self.label@,
            state: self.state@,
            created_at: self.created_at@,
            started_at: opt_text(self.started_at),
            finished_at: opt_text(self.finished_at),
            result: opt_text(self.result),
            scope: self.scope@,
            persistence_warning: opt_text(self.persistence_warning),
        }
    }
}

/// How far a repair task has come: queued, then running, then finished.
/// Every step moves a task forward; nothing moves it back.
pub open spec fn repair_rank(state: Seq<char>) -> int {
    if state == "queued"@ {
        0
    } else if state == "running"@ {
        1
    } else {
        2
    }
}

/// A task that has not finished yet.
pub open spec fn repair_open(state: Seq<char>) -> bool {
    state == "queued"@ || state == "running"@
}

/// Starting a task: only a queued task starts, and it becomes running.
pub open spec fn repair_started(t: TaskView, at: Seq<char>) -> Option<TaskView> {
    if t.state == "queued"@ {
        Some(TaskView { state: "running"@, started_at: Some(at), ..t })
    } else {
        None
    }
}

/// Finishing a task with a state and a message: only an unfinished task
/// finishes.
pub open spec fn repair_finished(t: TaskView, state: Seq<char>, message: Seq<char>, at: Seq<char>) -> Option<TaskView> {
    if repair_open(t.state) {
        Some(TaskView { state, finished_at: Some(at), result: Some(message), ..t })
    } else {
        None
    }
}

/// The message a task interrupted by a restart carries.
pub open spec fn interrupted_result() -> Seq<char> {
    "应用上次退出时任务未完成；未自动重试"@
}

/// Recovery after a restart: an unfinished task is marked interrupted and
/// is not run again.
pub open spec fn repair_interrupted(t: TaskView, at: Seq<char>) -> Option<TaskView> {
    repair_finished(t, "interrupted"@, interrupted_result(), at)
}

impl Task {
    /// The update `run` makes when it takes a queued task: the task becomes
    /// running. The flag says whether the task changed; a task that is not
    /// queued is returned as it was.
    pub fn start(self, at: String) -> (r: (Task, bool))
        ensures
            r.1 == repair_started(self@, at@) is Some,
            r.1 ==> r.0@ == repair_started(self@, at@)->0,
            !r.1 ==> r.0@ == self@,
    {
        if same_text(self.state.as_str(), "queued") {
            let mut t = self;
            t.state = owned("running");
            t.started_at = Some(at);
            (t, true)
        } else {
            (self, false)
        }
    }

    /// The update `finish` makes: an unfinished task takes the final state
    /// and message. A finished task is returned as it was.
    pub fn finish(self, state: String, message: String, at: String) -> (r: (Task, bool))
        ensures
            r.1 == repair_finished(self@, state@, message@, at@) is Some,
            r.1 ==> r.0@ == repair_finished(self@, state@, message@, at@)->0,
            !r.1 ==> r.0@ == self@,
    {
        if same_text(self.state.as_str(), "queued") || same_text(self.state.as_str(), "running") {
            let mut t = self;
            t.state = state;
            t.finished_at = Some(at);
            t.result = Some(message);
            (t, true)
        } else {
            (self, false)
        }
    }

    /// The update recovery makes after a restart: an unfinished task is
    /// interrupted, never queued again.
    pub fn interrupt(self, at: String) -> (r: (Task, bool))
        ensures
            r.1 == repair_interrupted(self@, at@) is Some,
            r.1 ==> r.0@ == repair_interrupted(self@, at@)->0,
            !r.1 ==> r.0@ == self@,
    {
        self.finish(owned("interrupted"), owned("应用上次退出时任务未完成；未自动重试"), at)
    }
}

/// The final state and message of a run from the action's outcome.
pub fn run_outcome(outcome: Result<String, String>) -> (r: (String, String))
    ensures
        outcome matches Ok(m) ==> r.0@ == "succeeded"@ && r.1@ == m@,
        outcome matches Err(m) ==> r.0@ == "failed"@ && r.1@ == m@,
{
    match outcome {
        Ok(m) => (owned("succeeded"), m),
        Err(m) => (owned("failed"), m),
    }
}

/// The text of a successful integrity check.
pub open spec fn check_passed_text() -> Seq<char> {
    "应用数据库完整性检查通过"@
}

/// Whether every row of an integrity check reads `ok`.
pub open spec fn all_ok(rows: Seq<Seq<char>>) -> bool {
    forall|i: int| 0 <= i < rows.len() ==> #[trigger] rows[i] == "ok"@
}

/// The outcome of `PRAGMA quick_check`: it passes when it reports at least
/// one row and every row is `ok`; otherwise the rows are the finding.
pub fn quick_check_outcome(rows: &Vec<String>) -> (r: Result<String, String>)
    ensures
        r is Ok <==> rows@.len() > 0 && all_ok(texts(rows@)),
        r matches Ok(m) ==> m@ == check_passed_text(),
        r matches Err(m) ==> m@ == "数据库检查发现问题："@ + joined(texts(rows@), "; "@),
{
    let mut ok = rows.len() > 0;
    let mut i: usize = 0;
    while i < rows.len()
        invariant
            i <= rows.len(),
            ok == (rows@.len() > 0 && forall|j: int| 0 <= j < i ==> #[trigger] rows@[j]@ == "ok"@),
        decreases rows.len() - i,
    {
        if !same_text(rows[i].as_str(), "ok") {
            ok = false;
        }
        i += 1;
    }
    if ok {
        assert(all_ok(texts(rows@)));
        Ok(owned("应用数据库完整性检查通过"))
    } else {
        assert(!(rows@.len() > 0 && all_ok(texts(rows@)))) by {
            if rows@.len() > 0 {
                let j = choose|j: int| 0 <= j < rows@.len() && !(#[trigger] rows@[j]@ == "ok"@);
                assert(texts(rows@)[j] == rows@[j]@);
            }
        }
        let findings = join(rows, "; ");
        Err(concat("数据库检查发现问题：", findings.as_str()))
    }
}

/// The message recorded when running a task or saving its result failed.
pub fn run_failure_message(error: &str) -> (r: String)
    ensures
        r@ == "任务执行或结果保存失败："@ + error@ + "；未自动重试"@,
{
    let head = concat("任务执行或结果保存失败：", error);
    concat(head.as_str(), "；未自动重试")
}

/// The warning kept for a task whose final state could not be saved.
pub fn unsaved_result_warning(message: &str) -> (r: String)
    ensures
        r@ == "RESULT_NOT_SAVED: 结果未能保存，状态待核实。"@ + message@,
{
    concat("RESULT_NOT_SAVED: 结果未能保存，状态待核实。", message)
}

/// The page size `tasks` uses: the requested size kept within 1 to 100.
pub fn page_limit(limit: u32) -> (r: u32)
    ensures
        r == if limit < 1 { 1 } else if limit > 100 { 100 } else { limit },
{
    if limit < 1 {
        1
    } else if limit > 100 {
        100
    } else {
        limit
    }
}

/// The event stream of a repair task.
#[derive(Debug, Clone)]
pub struct TaskEvent {
    pub seq: i64,
    pub task_id: String,
    pub kind: String,
    pub message: String,
    pub occurred_at: String,
}

/// A task together with its events.
#[derive(Debug, Clone)]
pub struct TaskDetail {
    pub task: Task,
    pub events: Vec<TaskEvent>,
}

/// The refresh intervals the desktop offers, in seconds.
pub open spec fn refresh_choice(v: Seq<char>) -> bool {
    v == "10"@ || v == "30"@ || v == "60"@
}

/// The refresh interval to show: the saved one where it is one of the
/// offered choices, else 30 seconds.
pub fn refresh_interval(saved: Option<String>) -> (r: String)
    ensures
        r@ == (match saved {
            Some(s) => if refresh_choice(s@) { s@ } else { "30"@ },
            None => "30"@,
        }),
{
    match saved {
        Some(s) => {
            if same_text(s.as_str(), "10") || same_text(s.as_str(), "30") || same_text(s.as_str(), "60") {
                s
            } else {
                owned("30")
            }
        },
        None => owned("30"),
    }
}

/// The check before a setting is saved: only the refresh interval, and
/// only one of the offered choices.
pub fn check_setting(key: &str, value: &str) -> (r: Result<(), String>)
    ensures
        r is Ok <==> key@ == "refresh_seconds"@ && refresh_choice(value@),
        r matches Err(e) ==> e@ == "SETTING_NOT_ALLOWED"@,
{
    if !same_text(key, "refresh_seconds") || !(same_text(value, "10") || same_text(value, "30")
        || same_text(value, "60")) {
        return Err(owned("SETTING_NOT_ALLOWED"));
    }
    Ok(())
}

/// No step moves a repair task back: starting, finishing and interrupting
/// either leave the task as it is or move it to a later stage, and a
/// finished task is never started, finished or interrupted again.
pub proof fn repair_steps_only_move_forward(t: TaskView, state: Seq<char>, message: Seq<char>, at: Seq<char>)
    requires
        state != "queued"@ && state != "running"@,
    ensures
        repair_started(t, at) matches Some(n) ==> repair_rank(n.state) > repair_rank(t.state),
        repair_finished(t, state, message, at) matches Some(n) ==> repair_rank(n.state) > repair_rank(t.state),
        repair_interrupted(t, at) matches Some(n) ==> repair_rank(n.state) > repair_rank(t.state),
        repair_rank(t.state) == 2 ==> repair_started(t, at) is None && repair_finished(t, state, message, at) is None
            && repair_interrupted(t, at) is None,
{
    assert("interrupted"@ != "queued"@ && "interrupted"@ != "running"@) by {
        reveal_strlit("interrupted");
        reveal_strlit("queued");
        reveal_strlit("running");
        assert("interrupted"@.len() != "queued"@.len());
        assert("interrupted"@.len() != "running"@.len());
    }
    assert("running"@ != "queued"@) by {
        reveal_strlit("queued");
        reveal_strlit("running");
        assert("running"@.len() != "queued"@.len());
    }
}

/// A local submission is one task per request id: a retry under the id of
/// a stored task is accepted exactly when it names the stored task's
/// action, whatever state that task reached; the two actions never share a
/// key, so another action under the same id is always a conflict.
pub proof fn local_retries_need_the_same_action(stored: RepairAction, retry: RepairAction)
    ensures
        (stored.key_text() == retry.key_text()) <==> stored == retry,
{
    reveal_strlit("check_database");
    reveal_strlit("rebuild_indexes");
    assert("check_database"@[0] != "rebuild_indexes"@[0]);
}

/// A repair task runs at most once: starting it again after it started
/// changes nothing, and a finished or interrupted task is never started.
pub proof fn a_repair_task_runs_at_most_once(t: TaskView, at: Seq<char>, again: Seq<char>)
    ensures
        repair_started(t, at) matches Some(n) ==> repair_started(n, again) is None,
        !repair_open(t.state) ==> repair_started(t, at) is None,
{
    assert("running"@ != "queued"@) by {
        reveal_strlit("queued");
        reveal_strlit("running");
        assert("running"@.len() != "queued"@.len());
    }
}

/// A stored device with the user's preferences applied from its row:
/// the alias, and the favorite and visible flags stored as 1 or 0.
pub fn with_preferences(device: Device, alias: String, favorite: i64, visible: i64) -> (r: Device)
    ensures
        r@ == (DeviceView { alias: alias@, favorite: favorite == 1, visible: visible == 1, ..device@ }),
{
    let mut d = device;
    d.alias = alias;
    d.favorite = favorite == 1;
    d.visible = visible == 1;
    d
}

/// Cached devices as shown while the live network is being confirmed: all
/// of them marked not visible, nothing else changed.
pub fn hide_all(devices: Vec<Device>) -> (r: Vec<Device>)
    ensures
        r@.len() == devices@.len(),
        forall|i: int| 0 <= i < r@.len() ==> (#[trigger] r@[i])@ == (DeviceView { visible: false, ..devices@[i]@ }),
{
    let mut out: Vec<Device> = Vec::new();
    let mut i: usize = 0;
    while i < devices.len()
        invariant
            i <= devices.len(),
            out@.len() == i,
            forall|k: int| 0 <= k < i ==> (#[trigger] out@[k])@ == (DeviceView { visible: false, ..devices@[k]@ }),
        decreases devices.len() - i,
    {
        let mut d = devices[i].clone_device();
        d.visible = false;
        out.push(d);
        i += 1;
    }
    out
}

/// The check before a device's preferences are changed: the live snapshot
/// confirms the network and shows the device.
pub fn check_live_device(live: &NetworkSnapshot, context_id: &str, node_id: &str) -> (r: Result<(), String>)
    ensures
        r is Ok <==> confirms_context(live.state@, live.context_id@, context_id@) && exists|i: int|
            0 <= i < live.devices.len() && (#[trigger] live.devices@[i]).node_id@ == node_id@,
{
    live.require_context(context_id)?;
    let mut i: usize = 0;
    while i < live.devices.len()
        invariant
            i <= live.devices.len(),
            confirms_context(live.state@, live.context_id@, context_id@),
            forall|k: int| 0 <= k < i ==> (#[trigger] live.devices@[k]).node_id@ != node_id@,
        decreases live.devices.len() - i,
    {
        if same_text(live.devices[i].node_id.as_str(), node_id) {
            return Ok(());
        }
        i += 1;
    }
    Err(owned("DEVICE_NOT_VISIBLE: 设备当前不可见，请刷新"))
}

/// The check after a preference update: exactly one stored device changed.
pub fn check_updated(rows: u64) -> (r: Result<(), String>)
    ensures
        r is Ok <==> rows == 1,
        r matches Err(e) ==> e@ == "DEVICE_NOT_FOUND"@,
{
    if rows != 1 {
        return Err(owned("DEVICE_NOT_FOUND"));
    }
    Ok(())
}

/// Whether a snapshot is stored and its devices read back from storage:
/// only a ready snapshot with a network identity.
pub fn should_store(snapshot: &NetworkSnapshot) -> (r: bool)
    ensures
        r == (snapshot.state@ == "ready"@ && snapshot.context_id@.len() > 0),
{
    same_text(snapshot.state.as_str(), "ready") && !snapshot.context_id.as_str().is_empty()
}

/// The check the maintenance command makes on a finished repair: it exits
/// with an error unless the task succeeded.
pub fn check_repair_succeeded(state: &str) -> (r: Result<(), String>)
    ensures
        r is Ok <==> state@ == "succeeded"@,
        r matches Err(e) ==> e@ == "REPAIR_FAILED: 请查看任务结果"@,
{
    if !same_text(state, "succeeded") {
        return Err(owned("REPAIR_FAILED: 请查看任务结果"));
    }
    Ok(())
}

} // verus!
