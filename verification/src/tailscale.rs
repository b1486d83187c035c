//! Reading the output of `tailscale status --json` into a network snapshot:
//! the connection state, the network identity and the visible devices.

use crate::json::{
    array_strings, bool_of, json_or_null, member, member_of, member_opt, member_str, str_of, str_or,
    strings_of, Json,
};
use crate::model::{Device, DeviceView, NetworkSnapshot, SnapshotView, device_list, text_list};
use crate::outside::{compact_json, json_document, json_text, now, parse_json, sha256, to_lower, unicode_lower};
use crate::remote_model::hex_digest_text;
use crate::text::{
    chars_of, has_part, hex_text, owned, same_text, slice_chars, string_of, trim_end,
    trim_end_chars, Trim, contains_part,
};
use vstd::prelude::*;

verus! {

broadcast use vstd::string::group_string_axioms;

/// The most status output read from the client.
pub const OUTPUT_LIMIT: usize = 16777216;

/// The number of characters of the client's error output kept in a snapshot.
pub const ERROR_CHARS: usize = 800;

/// The snapshot state for a backend state of the client.
pub open spec fn backend_state(b: Seq<char>) -> Seq<char> {
    if b == "Running"@ {
        "ready"@
    } else if b == "NeedsLogin"@ {
        "login_required"@
    } else if b == "NeedsMachineAuth"@ {
        "approval_required"@
    } else if b == "Starting"@ {
        "starting"@
    } else if b == "Stopped"@ {
        "stopped"@
    } else {
        "unknown"@
    }
}

/// The device a status entry describes, if it has a non-empty `ID`.
pub open spec fn device_of(v: Json, is_self: bool, time: Seq<char>) -> Option<DeviceView> {
    match str_of(member_of(v, "ID"@)) {
        None => None,
        Some(id) => if id.len() == 0 {
            None
        } else {
            Some(
                DeviceView {
                    node_id: id,
                    name: str_or(member_of(v, "HostName"@), "未命名设备"@),
                    dns_name: trim_end(str_or(member_of(v, "DNSName"@), Seq::empty()), Trim::Char('.')),
                    os: str_or(member_of(v, "OS"@), "unknown"@),
                    addresses: array_strings(member_of(v, "TailscaleIPs"@)),
                    online: bool_of(member_of(v, "Online"@)),
                    is_self,
                    last_seen: str_of(member_of(v, "LastSeen"@)),
                    alias: Seq::empty(),
                    favorite: false,
                    observed_at: time,
                    visible: true,
                },
            )
        },
    }
}

/// The devices of the peer entries, in order.
pub open spec fn peer_devices(entries: Seq<(String, Json)>, time: Seq<char>) -> Seq<DeviceView>
    decreases entries.len(),
{
    if entries.len() == 0 {
        Seq::empty()
    } else {
        match device_of(entries.last().1, false, time) {
            Some(d) => peer_devices(entries.drop_last(), time).push(d),
            None => peer_devices(entries.drop_last(), time),
        }
    }
}

/// The devices a status document lists: this device first, then the peers.
pub open spec fn listed_devices(doc: Json, time: Seq<char>) -> Seq<DeviceView> {
    let own = match device_of(member_of(doc, "Self"@), true, time) {
        Some(d) => seq![d],
        None => Seq::empty(),
    };
    let peers = match member_of(doc, "Peer"@) {
        Json::Object(entries) => peer_devices(entries@, time),
        _ => Seq::empty(),
    };
    own + peers
}

/// Whether a device with node id `id` is among `ds`.
pub open spec fn has_node(ds: Seq<DeviceView>, id: Seq<char>) -> bool {
    exists|i: int| 0 <= i < ds.len() && (#[trigger] ds[i]).node_id == id
}

/// The devices with the first of each node id kept and later repeats left out.
pub open spec fn unique_devices(ds: Seq<DeviceView>) -> Seq<DeviceView>
    decreases ds.len(),
{
    if ds.len() == 0 {
        Seq::empty()
    } else if has_node(ds.drop_last(), ds.last().node_id) {
        unique_devices(ds.drop_last())
    } else {
        unique_devices(ds.drop_last()).push(ds.last())
    }
}

/// The text the network identity is derived from: this device's id, the
/// DNS suffix, the network name and the user id, separated by NUL.
pub open spec fn identity_text(self_id: Seq<char>, domain: Seq<char>, network: Seq<char>, user: Seq<char>) -> Seq<char> {
    self_id + seq!['\0'] + domain + seq!['\0'] + network + seq!['\0'] + user
}

/// The network identity of a status document: the hex SHA-256 of its
/// identity text, or empty where this device's id is missing or neither
/// the DNS suffix nor the network name is known.
pub open spec fn context_of(doc: Json) -> Seq<char> {
    let self_id = str_or(member_of(member_of(doc, "Self"@), "ID"@), Seq::empty());
    let domain = str_or(member_of(member_of(doc, "CurrentTailnet"@), "MagicDNSSuffix"@), Seq::empty());
    let network = str_or(member_of(member_of(doc, "CurrentTailnet"@), "Name"@), Seq::empty());
    let user = json_text(member_of(member_of(doc, "Self"@), "UserID"@));
    if self_id.len() == 0 || (domain.len() == 0 && network.len() == 0) {
        Seq::empty()
    } else {
        hex_text(sha256(vstd::utf8::encode_utf8(identity_text(self_id, domain, network, user))))
    }
}

/// The error a running client gets when its network identity is incomplete.
pub open spec fn incomplete_identity_text() -> Seq<char> {
    "网络身份不完整，未使用旧账号缓存"@
}

/// The snapshot a status document gives at `time`. A running client with
/// an incomplete identity is reported as `unknown`; only a ready snapshot
/// lists devices, each node id once.
pub open spec fn snapshot_from(doc: Json, backend: Seq<char>, time: Seq<char>) -> SnapshotView {
    let context = context_of(doc);
    let incomplete = backend_state(backend) == "ready"@ && context.len() == 0;
    let state = if incomplete {
        "unknown"@
    } else {
        backend_state(backend)
    };
    SnapshotView {
        state,
        version: str_or(member_of(doc, "Version"@), Seq::empty()),
        network: str_or(member_of(member_of(doc, "CurrentTailnet"@), "Name"@), Seq::empty()),
        context_id: context,
        observed_at: time,
        devices: if state == "ready"@ {
            unique_devices(listed_devices(doc, time))
        } else {
            Seq::empty()
        },
        error: if incomplete {
            Some(incomplete_identity_text())
        } else {
            None
        },
    }
}

/// What the status output `bytes` reads as at `time`, or the error text.
pub open spec fn snapshot_of(bytes: Seq<u8>, time: Seq<char>) -> Result<SnapshotView, Seq<char>> {
    if bytes.len() > OUTPUT_LIMIT {
        Err("状态数据超过大小限制"@)
    } else {
        match json_document(bytes) {
            None => Err("无法识别 Tailscale 状态格式"@),
            Some(doc) => match str_of(member_of(doc, "BackendState"@)) {
                None => Err("缺少 Tailscale BackendState"@),
                Some(b) => Ok(snapshot_from(doc, b, time)),
            },
        }
    }
}

/// A snapshot for a client that could not be read: no identity, no
/// devices, and the error.
pub open spec fn failed_snapshot(state: Seq<char>, error: Seq<char>, time: Seq<char>) -> SnapshotView {
    SnapshotView {
        state,
        version: Seq::empty(),
        network: Seq::empty(),
        context_id: Seq::empty(),
        observed_at: time,
        devices: Seq::empty(),
        error: Some(error),
    }
}

/// The snapshot for a client that could not be read.
pub fn failed(state: &str, error: &str, time: String) -> (r: NetworkSnapshot)
    ensures
        r@ == failed_snapshot(state@, error@, time@),
{
    let r = NetworkSnapshot {
        state: owned(state),
        version: String::new(),
        network: String::new(),
        context_id: String::new(),
        observed_at: time,
        devices: Vec::new(),
        error: Some(owned(error)),
    };
    assert(device_list(r.devices@) =~= Seq::<DeviceView>::empty());
    r
}

/// The device a status entry describes (`None` for an entry without an id).
pub fn parse_device(v: Option<&Json>, is_self: bool, time: &str) -> (r: Option<Device>)
    ensures
        match r {
            Some(d) => device_of(json_or_null(v), is_self, time@) == Some(d@),
            None => device_of(json_or_null(v), is_self, time@) is None,
        },
{
    let node_id = match member_str(v, "ID") {
        None => {
            return None;
        },
        Some(id) => id,
    };
    if node_id.as_str().is_empty() {
        return None;
    }
    let name = match member_str(v, "HostName") {
        Some(s) => s,
        None => owned("未命名设备"),
    };
    let dns = match member_str(v, "DNSName") {
        Some(s) => s,
        None => String::new(),
    };
    let dns_chars = chars_of(dns.as_str());
    let dns_trimmed = trim_end_chars(&dns_chars, Trim::Char('.'));
    let os = match member_str(v, "OS") {
        Some(s) => s,
        None => owned("unknown"),
    };
    let addresses = strings_of(member_opt(v, "TailscaleIPs"));
    let online = match member_opt(v, "Online") {
        Some(Json::Bool(b)) => Some(*b),
        _ => None,
    };
    let last_seen = member_str(v, "LastSeen");
    let d = Device {
        node_id,
        name,
        dns_name: string_of(&dns_trimmed),
        os,
        addresses,
        online,
        is_self,
        last_seen,
        alias: String::new(),
        favorite: false,
        observed_at: owned(time),
        visible: true,
    };
    assert(text_list(d.addresses@) == array_strings(member_of(json_or_null(v), "TailscaleIPs"@)));
    Some(d)
}

/// Whether some device in `ds[..end]` has node id `id`.
fn seen_node(ds: &Vec<Device>, end: usize, id: &str) -> (r: bool)
    requires
        end <= ds.len(),
    ensures
        r == has_node(device_list(ds@).take(end as int), id@),
{
    let mut i: usize = 0;
    while i < end
        invariant
            i <= end <= ds.len(),
            forall|k: int| 0 <= k < i ==> (#[trigger] ds@[k])@.node_id != id@,
        decreases end - i,
    {
        if same_text(ds[i].node_id.as_str(), id) {
            assert(device_list(ds@).take(end as int)[i as int] == ds@[i as int]@);
            return true;
        }
        i += 1;
    }
    proof {
        assert forall|k: int| 0 <= k < end implies (#[trigger] device_list(ds@).take(end as int)[k]).node_id != id@ by {
            assert(device_list(ds@).take(end as int)[k] == ds@[k]@);
        }
    }
    false
}

/// The devices with later repeats of a node id left out.
fn unique(ds: Vec<Device>) -> (r: Vec<Device>)
    ensures
        device_list(r@) == unique_devices(device_list(ds@)),
{
    let mut out: Vec<Device> = Vec::new();
    let mut i: usize = 0;
    let n = ds.len();
    while i < n
        invariant
            n == ds.len(),
            i <= n,
            device_list(out@) == unique_devices(device_list(ds@).take(i as int)),
        decreases n - i,
    {
        let ghost prefix = device_list(ds@).take(i + 1);
        assert(prefix.drop_last() =~= device_list(ds@).take(i as int));
        assert(prefix.last() == ds@[i as int]@);
        let id = ds[i].node_id.clone();
        if !seen_node(&ds, i, id.as_str()) {
            let d = ds[i].clone_device();
            out.push(d);
            assert(device_list(out@) =~= unique_devices(device_list(ds@).take(i as int)).push(ds@[i as int]@));
        }
        i += 1;
    }
    assert(device_list(ds@).take(n as int) =~= device_list(ds@));
    out
}

impl Device {
    /// A field-by-field copy of the device.
    pub fn clone_device(&self) -> (r: Device)
        ensures
            r@ == self@,
    {
        let mut addresses: Vec<String> = Vec::new();
        let mut i: usize = 0;
        while i < self.addresses.len()
            invariant
                i <= self.addresses.len(),
                addresses@ == self.addresses@.take(i as int),
            decreases self.addresses.len() - i,
        {
            addresses.push(self.addresses[i].clone());
            assert(addresses@ =~= self.addresses@.take(i + 1));
            i += 1;
        }
        assert(self.addresses@.take(self.addresses.len() as int) =~= self.addresses@);
        Device {
            node_id: self.node_id.clone(),
            name: self.name.clone(),
            dns_name: self.dns_name.clone(),
            os: self.os.clone(),
            addresses,
            online: self.online,
            is_self: self.is_self,
            last_seen: match &self.last_seen {
                Some(s) => Some(s.clone()),
                None => None,
            },
            alias: self.alias.clone(),
            favorite: self.favorite,
            observed_at: self.observed_at.clone(),
            visible: self.visible,
        }
    }
}

/// The devices of a status document, this device first.
fn listed(doc: &Json, time: &str) -> (r: Vec<Device>)
    ensures
        device_list(r@) == listed_devices(*doc, time@),
{
    let mut out: Vec<Device> = Vec::new();
    match parse_device(member(doc, "Self"), true, time) {
        Some(d) => {
            out.push(d);
        },
        None => {},
    }
    let ghost own = device_list(out@);
    match member(doc, "Peer") {
        Some(Json::Object(entries)) => {
            let mut i: usize = 0;
            while i < entries.len()
                invariant
                    i <= entries.len(),
                    device_list(out@) == own + peer_devices(entries@.take(i as int), time@),
                decreases entries.len() - i,
            {
                assert(entries@.take(i + 1).drop_last() =~= entries@.take(i as int));
                match parse_device(Some(&entries[i].1), false, time) {
                    Some(d) => {
                        let ghost before = out@;
                        out.push(d);
                        assert(device_list(out@) =~= device_list(before).push(d@));
                        assert(device_list(out@) =~= own + peer_devices(entries@.take(i as int), time@).push(d@));
                    },
                    None => {},
                }
                i += 1;
            }
            assert(entries@.take(entries.len() as int) =~= entries@);
        },
        _ => {
            assert(device_list(out@) =~= own + Seq::<DeviceView>::empty());
        },
    }
    out
}

/// The network identity of a status document.
fn context(doc: &Json) -> (r: String)
    ensures
        r@ == context_of(*doc),
{
    let own = member(doc, "Self");
    let net = member(doc, "CurrentTailnet");
    let self_id = match member_str(own, "ID") {
        Some(s) => s,
        None => String::new(),
    };
    let domain = match member_str(net, "MagicDNSSuffix") {
        Some(s) => s,
        None => String::new(),
    };
    let network = match member_str(net, "Name") {
        Some(s) => s,
        None => String::new(),
    };
    if self_id.as_str().is_empty() || (domain.as_str().is_empty() && network.as_str().is_empty()) {
        return String::new();
    }
    let null = Json::Null;
    let user_value = match member_opt(own, "UserID") {
        Some(u) => u,
        None => &null,
    };
    let user = compact_json(user_value);
    assert(*user_value == member_of(member_of(*doc, "Self"@), "UserID"@));
    assert(self_id@ == str_or(member_of(member_of(*doc, "Self"@), "ID"@), Seq::empty()));
    assert(domain@ == str_or(member_of(member_of(*doc, "CurrentTailnet"@), "MagicDNSSuffix"@), Seq::empty()));
    assert(network@ == str_or(member_of(member_of(*doc, "CurrentTailnet"@), "Name"@), Seq::empty()));
    let mut text = self_id;
    crate::text::push_char(&mut text, '\0');
    crate::text::push_str(&mut text, domain.as_str());
    crate::text::push_char(&mut text, '\0');
    crate::text::push_str(&mut text, network.as_str());
    crate::text::push_char(&mut text, '\0');
    crate::text::push_str(&mut text, user.as_str());
    assert(text@ =~= identity_text(self_id@, domain@, network@, user@));
    hex_digest_text(text.as_str())
}

/// The snapshot state for a backend state of the client.
fn state_for(backend: &str) -> (r: &'static str)
    ensures
        r@ == backend_state(backend@),
{
    if same_text(backend, "Running") {
        "ready"
    } else if same_text(backend, "NeedsLogin") {
        "login_required"
    } else if same_text(backend, "NeedsMachineAuth") {
        "approval_required"
    } else if same_text(backend, "Starting") {
        "starting"
    } else if same_text(backend, "Stopped") {
        "stopped"
    } else {
        "unknown"
    }
}

/// Reads the status output `bytes` of the client, observed at `time`.
pub fn parse_at(bytes: &[u8], time: String) -> (r: Result<NetworkSnapshot, String>)
    ensures
        match r {
            Ok(s) => snapshot_of(bytes@, time@) == Ok::<SnapshotView, Seq<char>>(s@),
            Err(e) => snapshot_of(bytes@, time@) == Err::<SnapshotView, Seq<char>>(e@),
        },
{
    if bytes.len() > OUTPUT_LIMIT {
        return Err(owned("状态数据超过大小限制"));
    }
    let doc = match parse_json(bytes) {
        None => {
            return Err(owned("无法识别 Tailscale 状态格式"));
        },
        Some(d) => d,
    };
    let backend = match member_str(Some(&doc), "BackendState") {
        None => {
            return Err(owned("缺少 Tailscale BackendState"));
        },
        Some(b) => b,
    };
    let context_id = context(&doc);
    let state0 = state_for(backend.as_str());
    let incomplete = same_text(state0, "ready") && context_id.as_str().is_empty();
    let state = if incomplete {
        "unknown"
    } else {
        state0
    };
    let devices = if same_text(state, "ready") {
        unique(listed(&doc, time.as_str()))
    } else {
        Vec::new()
    };
    let version = match member_str(Some(&doc), "Version") {
        Some(s) => s,
        None => String::new(),
    };
    let network = match member_str(member(&doc, "CurrentTailnet"), "Name") {
        Some(s) => s,
        None => String::new(),
    };
    let error = if incomplete {
        Some(owned("网络身份不完整，未使用旧账号缓存"))
    } else {
        None
    };
    let s = NetworkSnapshot {
        state: owned(state),
        version,
        network,
        context_id,
        observed_at: time,
        devices,
        error,
    };
    proof {
        if !(state@ == "ready"@) {
            assert(device_list(s.devices@) =~= Seq::<DeviceView>::empty());
        }
    }
    Ok(s)
}

/// Reads the status output `bytes` of the client, observed now. Errors do
/// not depend on the time; a snapshot is the one the output gives at the
/// time it records.
pub fn parse(bytes: &[u8]) -> (r: Result<NetworkSnapshot, String>)
    ensures
        match r {
            Ok(s) => snapshot_of(bytes@, s@.observed_at) == Ok::<SnapshotView, Seq<char>>(s@),
            Err(e) => forall|t: Seq<char>| #[trigger] snapshot_of(bytes@, t) == Err::<SnapshotView, Seq<char>>(e@),
        },
{
    let time = now();
    let r = parse_at(bytes, time);
    proof {
        if r is Err {
            assert forall|t: Seq<char>| #[trigger] snapshot_of(bytes@, t) == snapshot_of(bytes@, time@) by {}
        }
    }
    r
}

/// The first `n` characters of `s` (`s.chars().take(n)`).
pub open spec fn first_chars(s: Seq<char>, n: nat) -> Seq<char> {
    if s.len() <= n {
        s
    } else {
        s.take(n as int)
    }
}

/// The state of a client whose status command failed with `message` on its
/// error output: a permission problem where the lower-cased message
/// mentions `denied` or `permission`, else an unavailable service.
pub open spec fn failure_state(message: Seq<char>) -> Seq<char> {
    if has_part(unicode_lower(message), "denied"@) || has_part(unicode_lower(message), "permission"@) {
        "permission_denied"@
    } else {
        "service_unavailable"@
    }
}

/// The snapshot for a status command that exited unsuccessfully with
/// `message` on its error output: the state by [`failure_state`], and the
/// first 800 characters of the message as the error.
pub fn command_failed(message: &str, time: String) -> (r: NetworkSnapshot)
    ensures
        r@ == failed_snapshot(failure_state(message@), first_chars(message@, ERROR_CHARS as nat), time@),
{
    let lower = to_lower(message);
    let lower_chars = chars_of(lower.as_str());
    let denied = chars_of("denied");
    let permission = chars_of("permission");
    let state = if contains_part(&lower_chars, &denied) || contains_part(&lower_chars, &permission) {
        "permission_denied"
    } else {
        "service_unavailable"
    };
    let v = chars_of(message);
    let kept = if v.len() <= ERROR_CHARS {
        slice_chars(&v, 0, v.len())
    } else {
        slice_chars(&v, 0, ERROR_CHARS)
    };
    assert(v@.subrange(0, v@.len() as int) =~= v@);
    let text = string_of(&kept);
    failed(state, text.as_str(), time)
}

/// The snapshot for a status read: the output of a command that exited
/// successfully is parsed (a parse error gives an `unknown` snapshot); an
/// unsuccessful exit is judged by its error output; a command that could
/// not be run or read is an unavailable service.
pub fn inspect_outcome(output: Result<(bool, Vec<u8>, String), String>, time: String) -> (r: NetworkSnapshot)
    ensures
        r@ == (match output {
            Ok((true, out, _)) => match snapshot_of(out@, time@) {
                Ok(s) => s,
                Err(e) => failed_snapshot("unknown"@, e, time@),
            },
            Ok((false, _, err)) => failed_snapshot(failure_state(err@), first_chars(err@, ERROR_CHARS as nat), time@),
            Err(e) => failed_snapshot("service_unavailable"@, e@, time@),
        }),
{
    match output {
        Ok((true, out, _)) => {
            let again = time.clone();
            match parse_at(out.as_slice(), time) {
                Ok(s) => s,
                Err(e) => failed("unknown", e.as_str(), again),
            }
        },
        Ok((false, _, err)) => command_failed(err.as_str(), time),
        Err(e) => failed("service_unavailable", e.as_str(), time),
    }
}

/// The check on a status output of `len` bytes read with a limit of
/// `limit` bytes.
pub fn check_output_size(len: usize, limit: usize) -> (r: Result<(), String>)
    ensures
        r is Ok <==> len <= limit,
        r matches Err(e) ==> e@ == "OUTPUT_LIMIT: 状态数据超过大小限制"@,
{
    if len > limit {
        Err(owned("OUTPUT_LIMIT: 状态数据超过大小限制"))
    } else {
        Ok(())
    }
}

proof fn unique_devices_from(ds: Seq<DeviceView>)
    ensures
        forall|i: int|
            0 <= i < unique_devices(ds).len() ==> has_node(ds, (#[trigger] unique_devices(ds)[i]).node_id),
    decreases ds.len(),
{
    if ds.len() > 0 {
        let rest = ds.drop_last();
        unique_devices_from(rest);
        assert forall|i: int| 0 <= i < unique_devices(ds).len() implies has_node(
            ds,
            (#[trigger] unique_devices(ds)[i]).node_id,
        ) by {
            let d = unique_devices(ds)[i];
            if i < unique_devices(rest).len() {
                assert(unique_devices(ds)[i] == unique_devices(rest)[i]);
                assert(has_node(rest, d.node_id));
                let k = choose|k: int| 0 <= k < rest.len() && (#[trigger] rest[k]).node_id == d.node_id;
                assert(ds[k] == rest[k]);
            } else {
                assert(d == ds.last());
                assert(ds[ds.len() - 1] == d);
            }
        }
    }
}

proof fn unique_devices_distinct(ds: Seq<DeviceView>)
    ensures
        forall|i: int, j: int|
            0 <= i < j < unique_devices(ds).len() ==> (#[trigger] unique_devices(ds)[i]).node_id
                != (#[trigger] unique_devices(ds)[j]).node_id,
    decreases ds.len(),
{
    if ds.len() > 0 {
        let rest = ds.drop_last();
        unique_devices_distinct(rest);
        unique_devices_from(rest);
        if !has_node(rest, ds.last().node_id) {
            let u = unique_devices(ds);
            let ur = unique_devices(rest);
            assert forall|i: int, j: int| 0 <= i < j < u.len() implies (#[trigger] u[i]).node_id
                != (#[trigger] u[j]).node_id by {
                if j < ur.len() {
                    assert(u[i] == ur[i] && u[j] == ur[j]);
                } else {
                    assert(u[j] == ds.last());
                    assert(u[i] == ur[i]);
                    assert(has_node(rest, ur[i].node_id));
                }
            }
        }
    }
}

/// A snapshot that is not ready lists no devices: when the client is
/// logged out, stopped or its identity is unknown, no device is shown as
/// present.
pub proof fn only_ready_snapshots_list_devices(bytes: Seq<u8>, time: Seq<char>)
    ensures
        snapshot_of(bytes, time) matches Ok(s) ==> (s.state != "ready"@ ==> s.devices.len() == 0),
{
}

/// A ready snapshot always carries a network identity and no error, so the
/// identity it carries is the one it confirms.
pub proof fn ready_snapshots_have_an_identity(bytes: Seq<u8>, time: Seq<char>)
    ensures
        snapshot_of(bytes, time) matches Ok(s) ==> (s.state == "ready"@ ==> s.context_id.len() > 0
            && s.error is None),
{
    reveal_strlit("unknown");
    reveal_strlit("ready");
    assert("unknown"@.len() != "ready"@.len());
}

/// Devices are told apart by node id alone: no node id appears twice in a
/// snapshot, whatever names the devices carry.
pub proof fn snapshot_node_ids_are_distinct(bytes: Seq<u8>, time: Seq<char>)
    ensures
        snapshot_of(bytes, time) matches Ok(s) ==> forall|i: int, j: int|
            0 <= i < j < s.devices.len() ==> (#[trigger] s.devices[i]).node_id
                != (#[trigger] s.devices[j]).node_id,
{
    if let Some(doc) = json_document(bytes) {
        unique_devices_distinct(listed_devices(doc, time));
    }
}

proof fn peer_ids_are_not_empty(entries: Seq<(String, Json)>, time: Seq<char>)
    ensures
        forall|i: int| 0 <= i < peer_devices(entries, time).len() ==> (#[trigger] peer_devices(entries, time)[i]).node_id.len() > 0,
    decreases entries.len(),
{
    if entries.len() > 0 {
        peer_ids_are_not_empty(entries.drop_last(), time);
    }
}

/// Every device of a snapshot has a node id: an entry without one is left
/// out, so no device is listed under an empty id.
pub proof fn snapshot_node_ids_are_not_empty(bytes: Seq<u8>, time: Seq<char>)
    ensures
        snapshot_of(bytes, time) matches Ok(s) ==> forall|i: int|
            0 <= i < s.devices.len() ==> (#[trigger] s.devices[i]).node_id.len() > 0,
{
    if let Some(doc) = json_document(bytes) {
        let ds = listed_devices(doc, time);
        match member_of(doc, "Peer"@) {
            Json::Object(entries) => peer_ids_are_not_empty(entries@, time),
            _ => {},
        }
        assert forall|k: int| 0 <= k < ds.len() implies (#[trigger] ds[k]).node_id.len() > 0 by {
            let own = match device_of(member_of(doc, "Self"@), true, time) {
                Some(d) => seq![d],
                None => Seq::<DeviceView>::empty(),
            };
            if k >= own.len() {
                assert(ds[k] == listed_devices(doc, time)[k]);
            }
        }
        unique_devices_from(ds);
        let u = unique_devices(ds);
        assert forall|i: int| 0 <= i < u.len() implies (#[trigger] u[i]).node_id.len() > 0 by {
            assert(has_node(ds, u[i].node_id));
            let k = choose|k: int| 0 <= k < ds.len() && (#[trigger] ds[k]).node_id == u[i].node_id;
            assert(ds[k].node_id.len() > 0);
        }
    }
}

/// The network identity of a status output does not depend on when it was
/// read, and neither does whether it reads at all.
pub proof fn identity_does_not_depend_on_time(bytes: Seq<u8>, t1: Seq<char>, t2: Seq<char>)
    ensures
        snapshot_of(bytes, t1) is Ok <==> snapshot_of(bytes, t2) is Ok,
        snapshot_of(bytes, t1) matches Ok(a) ==> (snapshot_of(bytes, t2) matches Ok(b) ==> a.context_id
            == b.context_id && a.state == b.state),
{
}

/// A snapshot of a client that could not be read confirms no network
/// identity.
pub proof fn failed_reads_confirm_nothing(state: Seq<char>, error: Seq<char>, time: Seq<char>, requested: Seq<char>)
    ensures
        !crate::model::confirms_context(
            failed_snapshot(state, error, time).state,
            failed_snapshot(state, error, time).context_id,
            requested,
        ),
{
}

/// A device shows the status entry's own online flag: where the entry's
/// `Online` member is a JSON boolean, the device is online exactly when that
/// boolean is true, and where it is anything else the device's presence is
/// unknown.
pub proof fn devices_carry_their_online_flag(v: Json, is_self: bool, time: Seq<char>)
    ensures
        device_of(v, is_self, time) matches Some(d) ==> match member_of(v, "Online"@) {
            Json::Bool(b) => d.online == Some(b),
            _ => d.online is None,
        },
{
}

} // verus!
