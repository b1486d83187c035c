//! The desktop's rules around remote work: a target is confirmed against a
//! fresh network snapshot before every contact, pairing information is
//! checked before it is used, and the local agent is configured from this
//! device's own node.

use crate::access::PairResponse;
use crate::controller::{RemoteConnection, RemoteHistory};
use crate::identity::{AgentConfig, PairingOffer};
use crate::model::{confirms_context, device_list, text_list, DeviceView, NetworkSnapshot};
use crate::outside::{uuid_parses, uuid_text};
use crate::remote_model::{same_target, Artifact, RemoteEvent, TargetIdentity};
use crate::text::{after_last, after_last_char, chars_of, concat, decimal, decimal_text, owned, push_str, same_text, string_of};
use vstd::prelude::*;

verus! {

broadcast use vstd::string::group_string_axioms;

/// The port the local agent listens on.
pub const AGENT_PORT: u16 = 47321;

/// The longest pairing information accepted, in bytes.
pub const MAX_OFFER_BYTES: usize = 32768;

/// Whether the snapshot lists node `node_id` with `address`.
pub open spec fn lists_target(devices: Seq<DeviceView>, node_id: Seq<char>, address: Seq<char>) -> bool {
    exists|i: int|
        0 <= i < devices.len() && (#[trigger] devices[i]).node_id == node_id && devices[i].addresses.contains(
            address,
        )
}

fn lists_address(addresses: &Vec<String>, address: &str) -> (r: bool)
    ensures
        r == text_list(addresses@).contains(address@),
{
    let mut i: usize = 0;
    while i < addresses.len()
        invariant
            i <= addresses.len(),
            forall|k: int| 0 <= k < i ==> (#[trigger] addresses@[k])@ != address@,
        decreases addresses.len() - i,
    {
        if same_text(addresses[i].as_str(), address) {
            assert(text_list(addresses@)[i as int] == address@);
            return true;
        }
        i += 1;
    }
    proof {
        if text_list(addresses@).contains(address@) {
            let k = choose|k: int| 0 <= k < addresses@.len() && #[trigger] text_list(addresses@)[k] == address@;
            assert(addresses@[k]@ == address@);
        }
    }
    false
}

/// The check made before every contact with a paired agent: the network
/// identity is still the one it was paired in, and the node is listed with
/// the paired address.
#[verifier::loop_isolation(false)]
pub fn confirm_target(snapshot: &NetworkSnapshot, context_id: &str, node_id: &str, address: &str) -> (r: Result<(), String>)
    ensures
        r is Ok <==> confirms_context(snapshot.state@, snapshot.context_id@, context_id@) && lists_target(
            device_list(snapshot.devices@),
            node_id@,
            address@,
        ),
        r matches Err(e) ==> (if confirms_context(snapshot.state@, snapshot.context_id@, context_id@) {
            e@ == "TARGET_CHANGED: 当前网络无法确认目标身份或地址，请刷新设备"@
        } else {
            e@ == "CONTEXT_CHANGED: 网络身份已变化或未确认，请刷新设备"@
        }),
{
    snapshot.require_context(context_id)?;
    let ds = &snapshot.devices;
    let mut i: usize = 0;
    while i < ds.len()
        invariant
            i <= ds.len(),
            forall|k: int|
                0 <= k < i ==> !((#[trigger] device_list(ds@)[k]).node_id == node_id@ && device_list(
                    ds@,
                )[k].addresses.contains(address@)),
        decreases ds.len() - i,
    {
        assert(device_list(ds@)[i as int] == ds@[i as int]@);
        if same_text(ds[i].node_id.as_str(), node_id) && lists_address(&ds[i].addresses, address) {
            return Ok(());
        }
        i += 1;
    }
    Err(owned("TARGET_CHANGED: 当前网络无法确认目标身份或地址，请刷新设备"))
}

/// The check on pasted pairing information of `len` bytes, before it is
/// read.
pub fn check_offer_size(len: usize) -> (r: Result<(), String>)
    ensures
        r is Ok <==> len <= MAX_OFFER_BYTES,
        r matches Err(e) ==> e@ == "PAIRING_INFORMATION_LIMIT"@,
{
    if len > MAX_OFFER_BYTES {
        Err(owned("PAIRING_INFORMATION_LIMIT"))
    } else {
        Ok(())
    }
}

/// The check that pairing information is for the chosen node.
pub fn check_offer_node(offer: &PairingOffer, node_id: &str) -> (r: Result<(), String>)
    ensures
        r is Ok <==> offer.identity.node_id@ == node_id@,
        r matches Err(e) ==> e@ == "PAIRING_NODE_MISMATCH"@,
{
    if !same_text(offer.identity.node_id.as_str(), node_id) {
        return Err(owned("PAIRING_NODE_MISMATCH"));
    }
    Ok(())
}

/// The connection a pairing creates: it keeps the id of an earlier
/// connection to the same node (`existing_id`), else takes `new_id`; the
/// agent's identity, address and certificate come from the offer, the
/// controller id from the agent's answer, and the token stays in the vault
/// under `credential_ref`.
pub fn paired_connection(existing_id: Option<String>, new_id: String, context_id: String, node_id: String, offer: PairingOffer, answer: &PairResponse, credential_ref: String) -> (c: RemoteConnection)
    ensures
        c.id@ == (match existing_id {
            Some(e) => e@,
            None => new_id@,
        }),
        c.context_id == context_id,
        c.node_id == node_id,
        c.agent_id == offer.identity.agent_id,
        c.address == offer.address,
        c.port == offer.port,
        c.certificate_pem == offer.certificate_pem,
        c.fingerprint == offer.fingerprint,
        c.controller_id@ == answer.controller_id@,
        c.credential_ref == credential_ref,
        c.name@ == "已配对设备"@,
{
    RemoteConnection {
        id: match existing_id {
            Some(e) => e,
            None => new_id,
        },
        context_id,
        node_id,
        agent_id: offer.identity.agent_id,
        address: offer.address,
        port: offer.port,
        certificate_pem: offer.certificate_pem,
        fingerprint: offer.fingerprint,
        controller_id: answer.controller_id.clone(),
        credential_ref,
        name: owned("已配对设备"),
    }
}

/// The vault reference of a controller token: `controller-ID`.
pub fn credential_reference(id: &str) -> (r: String)
    ensures
        r@ == "controller-"@ + id@,
{
    concat("controller-", id)
}

/// The check that a newly paired agent reports the identity it was paired
/// as.
pub fn check_paired_identity(reported: &TargetIdentity, connection: &RemoteConnection) -> (r: Result<(), String>)
    ensures
        r is Ok <==> reported.agent_id@ == connection.agent_id@ && reported.node_id@ == connection.node_id@,
        r matches Err(e) ==> e@ == "PAIRING_IDENTITY_MISMATCH"@,
{
    if !same_text(reported.agent_id.as_str(), connection.agent_id.as_str()) || !same_text(
        reported.node_id.as_str(),
        connection.node_id.as_str(),
    ) {
        return Err(owned("PAIRING_IDENTITY_MISMATCH"));
    }
    Ok(())
}

/// The check that the agent a request is sent to still reports the
/// request's target.
pub fn check_reported_target(reported: &TargetIdentity, target: &TargetIdentity) -> (r: Result<(), String>)
    ensures
        r is Ok <==> same_target(*reported, *target),
        r matches Err(e) ==> e@ == "TARGET_CHANGED"@,
{
    if !reported.same_as(target) {
        return Err(owned("TARGET_CHANGED"));
    }
    Ok(())
}

/// Whether a prepared submission was already accepted, so that it is
/// returned without contacting the agent again.
pub fn already_accepted(history: &RemoteHistory) -> (r: bool)
    ensures
        r == (history.submission_state@ == "accepted"@),
{
    same_text(history.submission_state.as_str(), "accepted")
}

/// The remote task id of a submission, or the error for one whose remote
/// task is not confirmed yet.
pub fn remote_task_id(history: &RemoteHistory, missing: &str) -> (r: Result<String, String>)
    ensures
        match history.remote_id {
            Some(id) => r matches Ok(s) && s@ == id@,
            None => r matches Err(e) && e@ == missing@,
        },
{
    match &history.remote_id {
        Some(id) => Ok(id.clone()),
        None => Err(owned(missing)),
    }
}

/// The event position a detail view reads after: none given reads from
/// the start, and so does a negative one.
pub fn event_cursor(after: Option<i64>) -> (r: i64)
    ensures
        r == (match after {
            Some(a) => if a < 0 {
                0
            } else {
                a
            },
            None => 0,
        }),
{
    match after {
        Some(a) => if a < 0 {
            0
        } else {
            a
        },
        None => 0,
    }
}

/// The agent path of a remote task: `/v1/tasks/ID`.
pub fn task_path(remote_id: &str) -> (r: String)
    ensures
        r@ == "/v1/tasks/"@ + remote_id@,
{
    concat("/v1/tasks/", remote_id)
}

/// The agent path of a remote task's events after `cursor`.
pub fn events_path(remote_id: &str, cursor: i64) -> (r: String)
    requires
        cursor >= 0,
    ensures
        r@ == "/v1/tasks/"@ + remote_id@ + "/events?after="@ + decimal_text(cursor as nat),
{
    let mut s = concat("/v1/tasks/", remote_id);
    push_str(&mut s, "/events?after=");
    let d = decimal(cursor as u64);
    push_str(&mut s, d.as_str());
    s
}

/// The agent path of a remote task's result files.
pub fn artifacts_path(remote_id: &str) -> (r: String)
    ensures
        r@ == "/v1/tasks/"@ + remote_id@ + "/artifacts"@,
{
    let mut s = concat("/v1/tasks/", remote_id);
    push_str(&mut s, "/artifacts");
    s
}

/// The agent path that cancels a remote task.
pub fn cancel_path(remote_id: &str) -> (r: String)
    ensures
        r@ == "/v1/tasks/"@ + remote_id@ + "/cancel"@,
{
    let mut s = concat("/v1/tasks/", remote_id);
    push_str(&mut s, "/cancel");
    s
}

/// Whether a remote task's result files are to be listed: only once its
/// results are complete.
pub fn results_ready(result_status: &str) -> (r: bool)
    ensures
        r == (result_status@ == "complete"@),
{
    same_text(result_status, "complete")
}

/// The result file named `artifact_id` among those listed.
pub fn find_artifact(artifacts: Vec<Artifact>, artifact_id: &str) -> (r: Result<Artifact, String>)
    ensures
        match r {
            Ok(a) => a.id@ == artifact_id@ && artifacts@.contains(a),
            Err(e) => e@ == "ARTIFACT_NOT_FOUND"@ && forall|i: int| 0 <= i < artifacts.len() ==> (#[trigger] artifacts@[i]).id@ != artifact_id@,
        },
{
    let mut i: usize = 0;
    while i < artifacts.len()
        invariant
            i <= artifacts.len(),
            forall|k: int| 0 <= k < i ==> (#[trigger] artifacts@[k]).id@ != artifact_id@,
        decreases artifacts.len() - i,
    {
        if same_text(artifacts[i].id.as_str(), artifact_id) {
            let ghost all = artifacts@;
            let mut rest = artifacts;
            let a = rest.swap_remove(i);
            assert(all[i as int] == a);
            return Ok(a);
        }
        i += 1;
    }
    Err(owned("ARTIFACT_NOT_FOUND"))
}

/// The file name a result file is saved under by default: the last part of
/// its name.
pub fn save_name(name: &str) -> (r: String)
    ensures
        r@ == after_last(name@, '/'),
{
    let v = chars_of(name);
    let last = after_last_char(&v, '/');
    string_of(&last)
}

/// The check before a controller id is used in an owner request.
pub fn check_controller_id(id: &str) -> (r: Result<(), String>)
    ensures
        r is Ok <==> uuid_text(vstd::utf8::encode_utf8(id@)),
        r matches Err(e) ==> e@ == "INVALID_CONTROLLER_ID"@,
{
    if !uuid_parses(id) {
        return Err(owned("INVALID_CONTROLLER_ID"));
    }
    Ok(())
}

/// The owner path that revokes a controller.
pub fn revoke_path(id: &str) -> (r: String)
    ensures
        r@ == "/owner/controllers/"@ + id@ + "/revoke"@,
{
    let mut s = concat("/owner/controllers/", id);
    push_str(&mut s, "/revoke");
    s
}

/// The check before autostart is turned on: the agent must be configured.
pub fn check_autostart(enabled: bool, configured: bool) -> (r: Result<(), String>)
    ensures
        r is Ok <==> !enabled || configured,
        r matches Err(e) ==> e@ == "AGENT_NOT_CONFIGURED: 请先配置并开启执行端"@,
{
    if enabled && !configured {
        return Err(owned("AGENT_NOT_CONFIGURED: 请先配置并开启执行端"));
    }
    Ok(())
}

/// This device in a ready snapshot: its position.
pub fn local_device(snapshot: &NetworkSnapshot) -> (r: Result<usize, String>)
    ensures
        match r {
            Ok(i) => snapshot.state@ == "ready"@ && i < snapshot.devices.len() && snapshot.devices@[i as int].is_self
                && forall|j: int| 0 <= j < i ==> !(#[trigger] snapshot.devices@[j]).is_self,
            Err(e) => if snapshot.state@ != "ready"@ {
                e@ == "TAILSCALE_NOT_READY"@
            } else {
                e@ == "LOCAL_NODE_UNCONFIRMED"@ && forall|j: int| 0 <= j < snapshot.devices.len() ==> !(#[trigger] snapshot.devices@[j]).is_self
            },
        },
{
    if !same_text(snapshot.state.as_str(), "ready") {
        return Err(owned("TAILSCALE_NOT_READY"));
    }
    let mut i: usize = 0;
    while i < snapshot.devices.len()
        invariant
            i <= snapshot.devices.len(),
            snapshot.state@ == "ready"@,
            forall|j: int| 0 <= j < i ==> !(#[trigger] snapshot.devices@[j]).is_self,
        decreases snapshot.devices.len() - i,
    {
        if snapshot.devices[i].is_self {
            return Ok(i);
        }
        i += 1;
    }
    Err(owned("LOCAL_NODE_UNCONFIRMED"))
}

/// The address the local agent binds to, from this device's addresses
/// (`v4[i]` says whether address `i` reads as IPv4): the first IPv4
/// address, else the first address.
pub fn bind_address(addresses: &Vec<String>, v4: &Vec<bool>) -> (r: Result<String, String>)
    requires
        v4.len() == addresses.len(),
    ensures
        match r {
            Ok(a) => exists|i: int| 0 <= i < addresses.len() && a@ == (#[trigger] addresses@[i])@ && (v4@[i]
                || forall|j: int| 0 <= j < addresses.len() ==> !(#[trigger] v4@[j])) && forall|j: int|
                0 <= j < i ==> !(#[trigger] v4@[j]),
            Err(e) => addresses.len() == 0 && e@ == "LOCAL_ADDRESS_MISSING"@,
        },
{
    let mut i: usize = 0;
    while i < addresses.len()
        invariant
            v4.len() == addresses.len(),
            i <= addresses.len(),
            forall|j: int| 0 <= j < i ==> !(#[trigger] v4@[j]),
        decreases addresses.len() - i,
    {
        if v4[i] {
            let a = addresses[i].clone();
            assert(a@ == addresses@[i as int]@);
            return Ok(a);
        }
        i += 1;
    }
    if addresses.len() == 0 {
        return Err(owned("LOCAL_ADDRESS_MISSING"));
    }
    let a = addresses[0].clone();
    assert(a@ == addresses@[0]@);
    Ok(a)
}

/// The configuration of the local agent: the chosen directories and
/// concurrency, on this device's node and address in the current network,
/// at the agent port.
pub fn local_config(allowed_directories: Vec<String>, concurrency: u8, context_id: String, node_id: String, address: String) -> (c: AgentConfig)
    ensures
        c.allowed_directories == allowed_directories,
        c.concurrency == concurrency,
        c.port == AGENT_PORT,
        c.context_id == context_id,
        c.node_id == node_id,
        c.address == address,
{
    AgentConfig { allowed_directories, concurrency, port: AGENT_PORT, context_id, node_id, address }
}

/// A remote submission as the desktop shows it: the record, the cached
/// events and the result files listed.
#[derive(Debug, Clone)]
pub struct RemoteDetail {
    pub history: RemoteHistory,
    pub events: Vec<RemoteEvent>,
    pub artifacts: Vec<Artifact>,
}

} // verus!
