//! The agent's identity on the network: its configuration, the addresses
//! it may listen on, its pinned certificate and the pairing offer it shows.

use crate::access::PairingSession;
use crate::model::{confirms_context, device_list, text_list, DeviceView, NetworkSnapshot};
use crate::outside::{pem_certificates, read_pem_certificates, self_signed_certificate, sha256};
use crate::remote_model::{absolute_path, absolute_for, hex_digest, TargetIdentity};
use crate::text::{byte_len, concat, hex_text, owned, same_text, utf8_len};
use vstd::prelude::*;

verus! {

broadcast use vstd::string::group_string_axioms;

/// An IP address, as its octets or its sixteen-bit segments.
#[derive(Debug, Clone, Copy, PartialEq, Eq)]
pub enum IpAddress {
    V4([u8; 4]),
    V6([u16; 8]),
}

/// Whether an address belongs to a Tailscale network: IPv4 in
/// 100.64.0.0/10, IPv6 in fd7a:115c:a1e0::/48.
pub open spec fn in_tailnet(ip: IpAddress) -> bool {
    match ip {
        IpAddress::V4(b) => b[0] == 100 && 64 <= b[1] && b[1] <= 127,
        IpAddress::V6(s) => s[0] == 0xfd7a && s[1] == 0x115c && s[2] == 0xa1e0,
    }
}

/// Whether an address belongs to a Tailscale network.
pub fn tailscale_address(ip: IpAddress) -> (r: bool)
    ensures
        r == in_tailnet(ip),
{
    match ip {
        IpAddress::V4(b) => b[0] == 100 && 64 <= b[1] && b[1] <= 127,
        IpAddress::V6(s) => s[0] == 0xfd7a && s[1] == 0x115c && s[2] == 0xa1e0,
    }
}

/// An agent's configuration: where it may work, how many tasks it runs at
/// once, and the network node and address it serves on.
#[derive(Debug, Clone)]
pub struct AgentConfig {
    pub allowed_directories: Vec<String>,
    pub concurrency: u8,
    pub port: u16,
    pub context_id: String,
    pub node_id: String,
    pub address: String,
}

/// The configuration limits: one to four tasks at once, a port, and one to
/// twenty allowed directories.
pub open spec fn config_limits_ok(c: AgentConfig) -> bool {
    &&& 1 <= c.concurrency <= 4
    &&& c.port != 0
    &&& c.allowed_directories.len() >= 1
    &&& c.allowed_directories.len() <= 20
}

/// Whether the snapshot shows this device as node `node_id` holding
/// `address`.
pub open spec fn shows_local_node(devices: Seq<DeviceView>, node_id: Seq<char>, address: Seq<char>) -> bool {
    exists|i: int|
        0 <= i < devices.len() && (#[trigger] devices[i]).is_self && devices[i].node_id == node_id
            && devices[i].addresses.contains(address)
}

/// The first problem of the configuration itself, before the network is
/// read: the limits, then the bind address (`address` is it as parsed,
/// `None` where it is no IP address).
pub open spec fn settings_problem(c: AgentConfig, address: Option<IpAddress>) -> Option<Seq<char>> {
    if !config_limits_ok(c) {
        Some("INVALID_AGENT_CONFIGURATION"@)
    } else if address is None {
        Some("INVALID_BIND_ADDRESS"@)
    } else if !in_tailnet(address->0) {
        Some("INVALID_BIND_ADDRESS: 只允许本机 Tailscale 地址"@)
    } else {
        None
    }
}

/// The first configuration problem, in the order the agent checks them:
/// the limits, the bind address (`address` is it as parsed, `None` where
/// it is no IP address), the network identity and the local node. The
/// allowed directories are checked one by one as they are opened
/// ([`check_allowed_directory`]).
pub open spec fn config_problem(c: AgentConfig, address: Option<IpAddress>, snapshot_state: Seq<char>, snapshot_context: Seq<char>, devices: Seq<DeviceView>, os: Seq<char>) -> Option<Seq<char>> {
    if settings_problem(c, address) is Some {
        settings_problem(c, address)
    } else if !confirms_context(snapshot_state, snapshot_context, c.context_id@) {
        Some("CONTEXT_CHANGED: 网络身份已变化或未确认，请刷新设备"@)
    } else if !shows_local_node(devices, c.node_id@, c.address@) {
        Some("LOCAL_NODE_CHANGED"@)
    } else {
        None
    }
}

impl AgentConfig {
    /// The checks an agent makes on its configuration before it opens the
    /// allowed directories: `address` is the configured address as parsed,
    /// `snapshot` the network as observed now, `os` the platform.
    /// The checks made before the network is read (see
    /// [`settings_problem`]).
    pub fn check_settings(&self, address: Option<IpAddress>) -> (r: Result<(), String>)
        ensures
            match settings_problem(*self, address) {
                None => r is Ok,
                Some(e) => r matches Err(m) && m@ == e,
            },
    {
        let n = self.allowed_directories.len();
        if !(1 <= self.concurrency && self.concurrency <= 4) || self.port == 0 || n == 0 || n > 20 {
            return Err(owned("INVALID_AGENT_CONFIGURATION"));
        }
        let ip = match address {
            None => {
                return Err(owned("INVALID_BIND_ADDRESS"));
            },
            Some(ip) => ip,
        };
        if !tailscale_address(ip) {
            return Err(owned("INVALID_BIND_ADDRESS: 只允许本机 Tailscale 地址"));
        }
        Ok(())
    }

    #[verifier::loop_isolation(false)]
    pub fn check(&self, address: Option<IpAddress>, snapshot: &NetworkSnapshot, os: &str) -> (r: Result<(), String>)
        ensures
            match config_problem(*self, address, snapshot.state@, snapshot.context_id@, device_list(snapshot.devices@), os@) {
                None => r is Ok,
                Some(e) => r matches Err(m) && m@ == e,
            },
    {
        self.check_settings(address)?;
        match snapshot.require_context(self.context_id.as_str()) {
            Err(e) => {
                return Err(e);
            },
            Ok(()) => {},
        }
        if !local_node_listed(snapshot, self.node_id.as_str(), self.address.as_str()) {
            return Err(owned("LOCAL_NODE_CHANGED"));
        }
        Ok(())
    }
}

/// The check on one allowed directory before it is opened: it is an
/// absolute path on `os`.
pub fn check_allowed_directory(dir: &str, os: &str) -> (r: Result<(), String>)
    ensures
        r is Ok <==> absolute_path(dir@, os@),
        r matches Err(e) ==> e@ == "INVALID_ALLOWED_DIRECTORY"@,
{
    if !absolute_for(dir, os) {
        return Err(owned("INVALID_ALLOWED_DIRECTORY"));
    }
    Ok(())
}

/// Whether the components of `root` begin the components of `path`.
pub open spec fn under_root(path: Seq<Seq<u8>>, root: Seq<Seq<u8>>) -> bool {
    root.len() <= path.len() && path.subrange(0, root.len() as int) == root
}

/// Whether `path` lies under one of `roots`, component by component.
pub open spec fn within_roots(path: Seq<Seq<u8>>, roots: Seq<Seq<Seq<u8>>>) -> bool {
    exists|i: int| 0 <= i < roots.len() && under_root(path, #[trigger] roots[i])
}

fn same_bytes(a: &Vec<u8>, b: &Vec<u8>) -> (r: bool)
    ensures
        r == (a@ == b@),
{
    if a.len() != b.len() {
        return false;
    }
    let mut i: usize = 0;
    while i < a.len()
        invariant
            a.len() == b.len(),
            i <= a.len(),
            forall|k: int| 0 <= k < i ==> a@[k] == b@[k],
        decreases a.len() - i,
    {
        if a[i] != b[i] {
            return false;
        }
        i += 1;
    }
    assert(a@ =~= b@);
    true
}

pub(crate) fn starts_with_components(path: &Vec<Vec<u8>>, root: &Vec<Vec<u8>>) -> (r: bool)
    ensures
        r == under_root(path.deep_view(), root.deep_view()),
{
    if root.len() > path.len() {
        return false;
    }
    let mut i: usize = 0;
    while i < root.len()
        invariant
            root.len() <= path.len(),
            i <= root.len(),
            forall|k: int| 0 <= k < i ==> path.deep_view()[k] == root.deep_view()[k],
        decreases root.len() - i,
    {
        if !same_bytes(&path[i], &root[i]) {
            assert(path.deep_view()[i as int] == path@[i as int]@);
            assert(root.deep_view()[i as int] == root@[i as int]@);
            assert(path.deep_view().subrange(0, root.len() as int)[i as int] != root.deep_view()[i as int]);
            return false;
        }
        assert(path.deep_view()[i as int] == path@[i as int]@);
        assert(root.deep_view()[i as int] == root@[i as int]@);
        i += 1;
    }
    assert(path.deep_view().subrange(0, root.len() as int) =~= root.deep_view());
    true
}

/// The check that a task's working directory, resolved to its components
/// (each as its platform bytes), lies under one of the allowed directories,
/// resolved the same way: `DIRECTORY_NOT_ALLOWED` where it does not.
pub fn check_work_directory(path: &Vec<Vec<u8>>, roots: &Vec<Vec<Vec<u8>>>) -> (r: Result<(), String>)
    ensures
        r is Ok <==> within_roots(path.deep_view(), roots.deep_view()),
        r matches Err(e) ==> e@ == "DIRECTORY_NOT_ALLOWED"@,
{
    let mut i: usize = 0;
    while i < roots.len()
        invariant
            i <= roots.len(),
            forall|k: int| 0 <= k < i ==> !under_root(path.deep_view(), #[trigger] roots.deep_view()[k]),
        decreases roots.len() - i,
    {
        if starts_with_components(path, &roots[i]) {
            assert(under_root(path.deep_view(), roots.deep_view()[i as int]));
            return Ok(());
        }
        i += 1;
    }
    Err(owned("DIRECTORY_NOT_ALLOWED"))
}

/// Whether `v` holds the text `s`.
fn holds_text(v: &Vec<String>, s: &str) -> (r: bool)
    ensures
        r == text_list(v@).contains(s@),
{
    let mut i: usize = 0;
    while i < v.len()
        invariant
            i <= v.len(),
            forall|k: int| 0 <= k < i ==> (#[trigger] v@[k])@ != s@,
        decreases v.len() - i,
    {
        if same_text(v[i].as_str(), s) {
            assert(text_list(v@)[i as int] == s@);
            return true;
        }
        i += 1;
    }
    proof {
        if text_list(v@).contains(s@) {
            let k = choose|k: int| 0 <= k < v@.len() && #[trigger] text_list(v@)[k] == s@;
            assert(v@[k]@ == s@);
        }
    }
    false
}

/// Whether the snapshot shows this device as node `node_id` holding
/// `address`.
pub fn local_node_listed(snapshot: &NetworkSnapshot, node_id: &str, address: &str) -> (r: bool)
    ensures
        r == shows_local_node(device_list(snapshot.devices@), node_id@, address@),
{
    let ds = &snapshot.devices;
    let mut i: usize = 0;
    while i < ds.len()
        invariant
            ds == &snapshot.devices,
            i <= ds.len(),
            forall|k: int|
                0 <= k < i ==> !((#[trigger] device_list(ds@)[k]).is_self && device_list(ds@)[k].node_id
                    == node_id@ && device_list(ds@)[k].addresses.contains(address@)),
        decreases ds.len() - i,
    {
        let d = &ds[i];
        assert(device_list(ds@)[i as int] == d@);
        if d.is_self && same_text(d.node_id.as_str(), node_id) && holds_text(&d.addresses, address) {
            return true;
        }
        i += 1;
    }
    false
}

/// Whether an address can be a remote desktop target: not unspecified,
/// loopback, multicast or the IPv4 broadcast address.
pub open spec fn routable(ip: IpAddress) -> bool {
    match ip {
        IpAddress::V4(b) => !(b[0] == 0 && b[1] == 0 && b[2] == 0 && b[3] == 0) && b[0] != 127 && !(
        224 <= b[0] && b[0] <= 239) && !(b[0] == 255 && b[1] == 255 && b[2] == 255 && b[3] == 255),
        IpAddress::V6(s) => !(s[0] == 0 && s[1] == 0 && s[2] == 0 && s[3] == 0 && s[4] == 0 && s[5]
            == 0 && s[6] == 0 && s[7] == 0) && !(s[0] == 0 && s[1] == 0 && s[2] == 0 && s[3] == 0
            && s[4] == 0 && s[5] == 0 && s[6] == 0 && s[7] == 1) && s[0] < 0xff00,
    }
}

/// Whether an address can be a remote desktop target.
pub fn is_routable(ip: IpAddress) -> (r: bool)
    ensures
        r == routable(ip),
{
    match ip {
        IpAddress::V4(b) => !(b[0] == 0 && b[1] == 0 && b[2] == 0 && b[3] == 0) && b[0] != 127 && !(
        224 <= b[0] && b[0] <= 239) && !(b[0] == 255 && b[1] == 255 && b[2] == 255 && b[3] == 255),
        IpAddress::V6(s) => !(s[0] == 0 && s[1] == 0 && s[2] == 0 && s[3] == 0 && s[4] == 0 && s[5]
            == 0 && s[6] == 0 && s[7] == 0) && !(s[0] == 0 && s[1] == 0 && s[2] == 0 && s[3] == 0
            && s[4] == 0 && s[5] == 0 && s[6] == 0 && s[7] == 1) && s[0] < 0xff00,
    }
}

/// An agent's published endpoint: its identity, where it listens, its
/// certificate and the references of its two credentials in the vault.
#[derive(Debug, Clone)]
pub struct Endpoint {
    pub identity: TargetIdentity,
    pub address: String,
    pub port: u16,
    pub certificate_pem: String,
    pub fingerprint: String,
    pub owner_credential_ref: String,
    pub key_credential_ref: String,
}

/// What the owner copies to a controller to pair it with the agent.
#[derive(Debug, Clone)]
pub struct PairingOffer {
    pub version: u32,
    pub identity: TargetIdentity,
    pub address: String,
    pub port: u16,
    pub certificate_pem: String,
    pub fingerprint: String,
    pub session: PairingSession,
}

/// The largest certificate text accepted, in bytes.
pub const CERTIFICATE_LIMIT: usize = 16384;

/// The DER certificate of a PEM text: the text is at most 16 KiB and holds
/// exactly one certificate.
pub open spec fn certificate_of(pem: Seq<char>) -> Result<Seq<u8>, Seq<char>> {
    if byte_len(pem) > CERTIFICATE_LIMIT {
        Err("CERTIFICATE_LIMIT"@)
    } else {
        match pem_certificates(vstd::utf8::encode_utf8(pem)) {
            None => Err("INVALID_CERTIFICATE"@),
            Some(certs) => if certs.len() != 1 {
                Err("INVALID_CERTIFICATE"@)
            } else {
                Ok(certs[0])
            },
        }
    }
}

/// The DER bytes of the one certificate in a PEM text.
pub fn certificate_der(pem: &str) -> (r: Result<Vec<u8>, String>)
    ensures
        match r {
            Ok(d) => certificate_of(pem@) == Ok::<Seq<u8>, Seq<char>>(d@),
            Err(e) => certificate_of(pem@) == Err::<Seq<u8>, Seq<char>>(e@),
        },
{
    if utf8_len(pem) > CERTIFICATE_LIMIT {
        return Err(owned("CERTIFICATE_LIMIT"));
    }
    let read = read_pem_certificates(pem.as_bytes());
    match read {
        None => Err(owned("INVALID_CERTIFICATE")),
        Some(certs) => {
            assert(certs.deep_view() == pem_certificates(vstd::utf8::encode_utf8(pem@))->0);
            if certs.len() != 1 {
                Err(owned("INVALID_CERTIFICATE"))
            } else {
                let ghost all = certs.deep_view();
                let mut certs = certs;
                assert(all[0] == certs@[0]@);
                let d = certs.remove(0);
                Ok(d)
            }
        },
    }
}

/// The certificate a controller pins for an agent: the one certificate of
/// the PEM text, whose SHA-256 must be the fingerprint the controller was
/// given.
pub open spec fn pinned_of(pem: Seq<char>, fingerprint: Seq<char>) -> Result<Seq<u8>, Seq<char>> {
    match certificate_of(pem) {
        Err(e) => Err(e),
        Ok(der) => if hex_text(sha256(der)) != fingerprint {
            Err("CERTIFICATE_FINGERPRINT_MISMATCH"@)
        } else {
            Ok(der)
        },
    }
}

/// The certificate to pin, checked against the fingerprint.
pub fn pinned_certificate(pem: &str, fingerprint: &str) -> (r: Result<Vec<u8>, String>)
    ensures
        match r {
            Ok(d) => pinned_of(pem@, fingerprint@) == Ok::<Seq<u8>, Seq<char>>(d@),
            Err(e) => pinned_of(pem@, fingerprint@) == Err::<Seq<u8>, Seq<char>>(e@),
        },
{
    let der = match certificate_der(pem) {
        Err(e) => {
            return Err(e);
        },
        Ok(d) => d,
    };
    let digest = hex_digest(der.as_slice());
    if !same_text(digest.as_str(), fingerprint) {
        return Err(owned("CERTIFICATE_FINGERPRINT_MISMATCH"));
    }
    Ok(der)
}

/// The address a client may connect to: a Tailscale address and a port.
pub fn check_remote_address(address: Option<IpAddress>, port: u16) -> (r: Result<IpAddress, String>)
    ensures
        r is Ok <==> (address matches Some(ip) && in_tailnet(ip) && port != 0),
        r matches Ok(ip) ==> address == Some(ip),
        r matches Err(e) ==> e@ == "INVALID_REMOTE_ADDRESS"@,
{
    match address {
        Some(ip) => {
            if tailscale_address(ip) && port != 0 {
                Ok(ip)
            } else {
                Err(owned("INVALID_REMOTE_ADDRESS"))
            }
        },
        None => Err(owned("INVALID_REMOTE_ADDRESS")),
    }
}

/// The error when a saved identity no longer matches the configuration.
pub open spec fn identity_changed_text() -> Seq<char> {
    "AGENT_IDENTITY_CHANGED: 请停止执行端并重新配置身份；已有授权不能用于其他节点"@
}

/// Whether a saved endpoint still serves the configured node, address and
/// port.
pub open spec fn endpoint_matches(e: Endpoint, c: AgentConfig) -> bool {
    e.identity.node_id@ == c.node_id@ && e.address@ == c.address@ && e.port == c.port
}

/// The check an agent makes on its saved endpoint at start: it must serve
/// the configured node, address and port, or pairing would carry over to
/// another node.
pub fn check_saved_endpoint(saved: &Endpoint, config: &AgentConfig) -> (r: Result<(), String>)
    ensures
        r is Ok <==> endpoint_matches(*saved, *config),
        r matches Err(e) ==> e@ == identity_changed_text(),
{
    if !same_text(saved.identity.node_id.as_str(), config.node_id.as_str()) || !same_text(
        saved.address.as_str(),
        config.address.as_str(),
    ) || saved.port != config.port {
        return Err(owned("AGENT_IDENTITY_CHANGED: 请停止执行端并重新配置身份；已有授权不能用于其他节点"));
    }
    Ok(())
}

/// A new endpoint for agent `id` on the configured node: its certificate,
/// the SHA-256 fingerprint of the certificate's DER bytes, and the vault
/// references `agent-key-ID` and `agent-owner-ID`.
pub fn new_endpoint(id: &str, config: &AgentConfig, certificate_pem: String, der: &[u8]) -> (e: Endpoint)
    ensures
        e.identity.agent_id@ == id@,
        e.identity.node_id@ == config.node_id@,
        e.address@ == config.address@,
        e.port == config.port,
        e.certificate_pem@ == certificate_pem@,
        e.fingerprint@ == hex_text(sha256(der@)),
        e.key_credential_ref@ == "agent-key-"@ + id@,
        e.owner_credential_ref@ == "agent-owner-"@ + id@,
{
    Endpoint {
        identity: TargetIdentity { agent_id: owned(id), node_id: config.node_id.clone() },
        address: config.address.clone(),
        port: config.port,
        certificate_pem,
        fingerprint: hex_digest(der),
        owner_credential_ref: concat("agent-owner-", id),
        key_credential_ref: concat("agent-key-", id),
    }
}

/// A new endpoint for agent `id` with a freshly generated self-signed
/// certificate for the configured address, and the certificate's signing
/// key as PEM text. The endpoint is the one [`new_endpoint`] builds, and its
/// fingerprint is the SHA-256 of the one certificate its PEM text holds.
pub fn create_endpoint(id: &str, config: &AgentConfig) -> (r: Result<(Endpoint, String), String>)
    ensures
        r matches Ok((e, _)) ==> {
            &&& e.identity.agent_id@ == id@
            &&& e.identity.node_id@ == config.node_id@
            &&& e.address@ == config.address@
            &&& e.port == config.port
            &&& e.key_credential_ref@ == "agent-key-"@ + id@
            &&& e.owner_credential_ref@ == "agent-owner-"@ + id@
            &&& pem_certificates(vstd::utf8::encode_utf8(e.certificate_pem@)) matches Some(certs)
            &&& certs.len() == 1
            &&& e.fingerprint@ == hex_text(sha256(certs[0]))
        },
{
    let (pem, der, key) = self_signed_certificate(config.address.as_str())?;
    let endpoint = new_endpoint(id, config, pem, der.as_slice());
    Ok((endpoint, key))
}

/// The pairing offer an owner is shown: the endpoint's identity, address,
/// port, certificate and fingerprint, with a fresh session.
pub fn offer_for(endpoint: &Endpoint, session: PairingSession) -> (o: PairingOffer)
    ensures
        o.version == crate::remote_model::PROTOCOL_VERSION,
        o.identity == endpoint.identity,
        o.address == endpoint.address,
        o.port == endpoint.port,
        o.certificate_pem == endpoint.certificate_pem,
        o.fingerprint == endpoint.fingerprint,
        o.session == session,
{
    PairingOffer {
        version: crate::remote_model::PROTOCOL_VERSION,
        identity: TargetIdentity {
            agent_id: endpoint.identity.agent_id.clone(),
            node_id: endpoint.identity.node_id.clone(),
        },
        address: endpoint.address.clone(),
        port: endpoint.port,
        certificate_pem: endpoint.certificate_pem.clone(),
        fingerprint: endpoint.fingerprint.clone(),
        session,
    }
}

/// Whether a pairing offer can still be used at `now` (seconds): it is of
/// protocol version 1 and its session has not expired.
pub fn check_offer(offer: &PairingOffer, now: i64) -> (r: Result<(), String>)
    ensures
        r is Ok <==> offer.version == 1 && offer.session.expires_at > now,
        r matches Err(e) ==> e@ == "PAIRING_EXPIRED_OR_INCOMPATIBLE"@,
{
    if offer.version != 1 || offer.session.expires_at <= now {
        return Err(owned("PAIRING_EXPIRED_OR_INCOMPATIBLE"));
    }
    Ok(())
}

} // verus!
