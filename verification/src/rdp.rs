//! Choosing the target of a Windows remote desktop connection from a fresh
//! network snapshot: the device, and the one address handed to the client.

use crate::identity::{is_routable, routable, IpAddress};
use crate::model::{confirms_context, device_list, DeviceView, NetworkSnapshot};
use crate::text::{ascii_lower, ascii_lower_char, chars_of, owned, same_text};
use vstd::prelude::*;

verus! {

broadcast use vstd::string::group_string_axioms;

/// The position of the first visible device with node id `node_id`.
pub open spec fn visible_index(ds: Seq<DeviceView>, node_id: Seq<char>) -> Option<int>
    decreases ds.len(),
{
    if ds.len() == 0 {
        None
    } else if ds[0].node_id == node_id && ds[0].visible {
        Some(0)
    } else {
        match visible_index(ds.drop_first(), node_id) {
            Some(k) => Some(k + 1),
            None => None,
        }
    }
}

proof fn visible_index_at(ds: Seq<DeviceView>, node_id: Seq<char>, k: int)
    requires
        0 <= k < ds.len(),
        ds[k].node_id == node_id && ds[k].visible,
        forall|j: int| 0 <= j < k ==> !((#[trigger] ds[j]).node_id == node_id && ds[j].visible),
    ensures
        visible_index(ds, node_id) == Some(k),
    decreases k,
{
    if k > 0 {
        assert forall|j: int| 0 <= j < k - 1 implies !((#[trigger] ds.drop_first()[j]).node_id == node_id
            && ds.drop_first()[j].visible) by {
            assert(ds.drop_first()[j] == ds[j + 1]);
        }
        visible_index_at(ds.drop_first(), node_id, k - 1);
    }
}

proof fn visible_index_none(ds: Seq<DeviceView>, node_id: Seq<char>)
    requires
        forall|j: int| 0 <= j < ds.len() ==> !((#[trigger] ds[j]).node_id == node_id && ds[j].visible),
    ensures
        visible_index(ds, node_id) is None,
    decreases ds.len(),
{
    if ds.len() > 0 {
        assert forall|j: int| 0 <= j < ds.len() - 1 implies !((#[trigger] ds.drop_first()[j]).node_id
            == node_id && ds.drop_first()[j].visible) by {
            assert(ds.drop_first()[j] == ds[j + 1]);
        }
        visible_index_none(ds.drop_first(), node_id);
    }
}

/// The device a remote desktop may be opened to, or the reason it may not:
/// the snapshot must confirm the network identity, the device must be
/// visible in it, not this device, and a Windows device (ASCII case
/// ignored).
pub open spec fn desktop_device(s: NetworkSnapshot, context_id: Seq<char>, node_id: Seq<char>) -> Result<int, Seq<char>> {
    if !confirms_context(s.state@, s.context_id@, context_id) {
        Err("CONTEXT_CHANGED: 网络身份已变化或未确认，请刷新设备"@)
    } else {
        match visible_index(device_list(s.devices@), node_id) {
            None => Err("DEVICE_NOT_VISIBLE: 目标设备当前不可见，请刷新设备"@),
            Some(k) => if device_list(s.devices@)[k].is_self {
                Err("RDP_SELF: 请选择另一台 Windows 设备"@)
            } else if ascii_lower(device_list(s.devices@)[k].os) != "windows"@ {
                Err("RDP_TARGET: 此入口用于连接 Windows 设备"@)
            } else {
                Ok(k)
            },
        }
    }
}

/// `s.eq_ignore_ascii_case("windows")`.
fn is_windows_name(s: &str) -> (r: bool)
    ensures
        r == (ascii_lower(s@) == "windows"@),
{
    proof {
        reveal_strlit("windows");
    }
    let v = chars_of(s);
    let w = chars_of("windows");
    if v.len() != w.len() {
        assert(ascii_lower(s@).len() != "windows"@.len());
        return false;
    }
    let mut i: usize = 0;
    while i < v.len()
        invariant
            v@ == s@,
            w@ == "windows"@,
            v.len() == w.len(),
            i <= v.len(),
            forall|j: int| 0 <= j < i ==> ascii_lower_char(v@[j]) == w@[j],
        decreases v.len() - i,
    {
        let c = v[i];
        let lower = if 'A' <= c && c <= 'Z' {
            ((c as u8) + 32) as char
        } else {
            c
        };
        if lower != w[i] {
            assert(ascii_lower(s@)[i as int] != "windows"@[i as int]);
            return false;
        }
        i += 1;
    }
    assert(ascii_lower(s@) =~= "windows"@);
    true
}

/// The device to open a remote desktop to: its position among the
/// snapshot's devices.
#[verifier::loop_isolation(false)]
pub fn desktop_target(snapshot: &NetworkSnapshot, context_id: &str, node_id: &str) -> (r: Result<usize, String>)
    ensures
        match desktop_device(*snapshot, context_id@, node_id@) {
            Ok(k) => r == Ok::<usize, String>(k as usize) && k < snapshot.devices.len(),
            Err(e) => r matches Err(m) && m@ == e,
        },
{
    match snapshot.require_context(context_id) {
        Err(e) => {
            return Err(e);
        },
        Ok(()) => {},
    }
    let ds = &snapshot.devices;
    let mut i: usize = 0;
    while i < ds.len()
        invariant
            i <= ds.len(),
            forall|j: int|
                0 <= j < i ==> !((#[trigger] device_list(ds@)[j]).node_id == node_id@ && device_list(
                    ds@,
                )[j].visible),
        decreases ds.len() - i,
    {
        assert(device_list(ds@)[i as int] == ds@[i as int]@);
        if ds[i].visible && same_text(ds[i].node_id.as_str(), node_id) {
            proof {
                visible_index_at(device_list(ds@), node_id@, i as int);
            }
            if ds[i].is_self {
                return Err(owned("RDP_SELF: 请选择另一台 Windows 设备"));
            }
            if !is_windows_name(ds[i].os.as_str()) {
                return Err(owned("RDP_TARGET: 此入口用于连接 Windows 设备"));
            }
            return Ok(i);
        }
        i += 1;
    }
    proof {
        visible_index_none(device_list(ds@), node_id@);
    }
    Err(owned("DEVICE_NOT_VISIBLE: 目标设备当前不可见，请刷新设备"))
}

/// Whether an address is an IPv4 address.
pub open spec fn is_v4(ip: IpAddress) -> bool {
    ip is V4
}

/// The first routable address among `cs` of the family `v4` names
/// (entries that are not addresses, `None`, are passed over).
pub open spec fn first_routable(cs: Seq<Option<IpAddress>>, v4: bool) -> Option<IpAddress>
    decreases cs.len(),
{
    if cs.len() == 0 {
        None
    } else {
        match cs[0] {
            Some(ip) => if routable(ip) && is_v4(ip) == v4 {
                Some(ip)
            } else {
                first_routable(cs.drop_first(), v4)
            },
            None => first_routable(cs.drop_first(), v4),
        }
    }
}

/// The address the remote desktop client is given: the first routable IPv4
/// address, else the first routable IPv6 address.
pub open spec fn preferred_address(cs: Seq<Option<IpAddress>>) -> Option<IpAddress> {
    match first_routable(cs, true) {
        Some(ip) => Some(ip),
        None => first_routable(cs, false),
    }
}

fn first_of_family(cs: &Vec<Option<IpAddress>>, v4: bool) -> (r: Option<IpAddress>)
    ensures
        r == first_routable(cs@, v4),
{
    let mut i: usize = cs.len();
    let mut found: Option<IpAddress> = None;
    while i > 0
        invariant
            i <= cs.len(),
            found == first_routable(cs@.skip(i as int), v4),
        decreases i,
    {
        i -= 1;
        let ghost rest = cs@.skip(i as int);
        assert(rest.drop_first() =~= cs@.skip(i + 1));
        assert(rest[0] == cs@[i as int]);
        match cs[i] {
            Some(ip) => {
                let family = match ip {
                    IpAddress::V4(_) => true,
                    IpAddress::V6(_) => false,
                };
                if is_routable(ip) && family == v4 {
                    found = Some(ip);
                }
            },
            None => {},
        }
    }
    assert(cs@.skip(0) =~= cs@);
    found
}

/// The address to hand the remote desktop client, from the target's
/// addresses as parsed (`None` for an entry that is no IP address).
pub fn desktop_address(candidates: &Vec<Option<IpAddress>>) -> (r: Result<IpAddress, String>)
    ensures
        match preferred_address(candidates@) {
            Some(ip) => r == Ok::<IpAddress, String>(ip),
            None => r matches Err(e) && e@ == "RDP_ADDRESS: 未读取到有效的目标地址，请刷新设备"@,
        },
{
    match first_of_family(candidates, true) {
        Some(ip) => Ok(ip),
        None => match first_of_family(candidates, false) {
            Some(ip) => Ok(ip),
            None => Err(owned("RDP_ADDRESS: 未读取到有效的目标地址，请刷新设备")),
        },
    }
}

/// A remote desktop is opened only to a routable address of a visible,
/// other Windows device of the confirmed network: whatever the snapshot,
/// a chosen address is routable, and an IPv6 address is chosen only where
/// no routable IPv4 address is listed.
pub proof fn desktop_address_is_routable_and_prefers_ipv4(cs: Seq<Option<IpAddress>>)
    ensures
        preferred_address(cs) matches Some(ip) ==> routable(ip) && cs.contains(Some(ip)),
        preferred_address(cs) matches Some(ip) ==> (ip is V6 ==> first_routable(cs, true) is None),
    decreases cs.len(),
{
    first_routable_found(cs, true);
    first_routable_found(cs, false);
}

proof fn first_routable_found(cs: Seq<Option<IpAddress>>, v4: bool)
    ensures
        first_routable(cs, v4) matches Some(ip) ==> routable(ip) && is_v4(ip) == v4 && cs.contains(
            Some(ip),
        ),
    decreases cs.len(),
{
    if cs.len() > 0 {
        first_routable_found(cs.drop_first(), v4);
        if let Some(ip) = first_routable(cs.drop_first(), v4) {
            let k = choose|k: int| 0 <= k < cs.drop_first().len() && cs.drop_first()[k] == Some(ip);
            assert(cs[k + 1] == Some(ip));
        }
        if let Some(ip) = cs[0] {
            assert(cs[0] == Some(ip));
        }
    }
}

/// A remote desktop target is always a visible device of the confirmed
/// network, never this device, and always a Windows device.
pub proof fn desktop_targets_are_other_windows_devices(s: NetworkSnapshot, context_id: Seq<char>, node_id: Seq<char>)
    ensures
        desktop_device(s, context_id, node_id) matches Ok(k) ==> {
            &&& confirms_context(s.state@, s.context_id@, context_id)
            &&& 0 <= k < s.devices.len()
            &&& device_list(s.devices@)[k].node_id == node_id
            &&& device_list(s.devices@)[k].visible
            &&& !device_list(s.devices@)[k].is_self
            &&& ascii_lower(device_list(s.devices@)[k].os) == "windows"@
        },
{
    visible_index_bounds(device_list(s.devices@), node_id);
}

proof fn visible_index_bounds(ds: Seq<DeviceView>, node_id: Seq<char>)
    ensures
        visible_index(ds, node_id) matches Some(k) ==> 0 <= k < ds.len() && ds[k].node_id == node_id
            && ds[k].visible,
    decreases ds.len(),
{
    if ds.len() > 0 {
        visible_index_bounds(ds.drop_first(), node_id);
        if let Some(k) = visible_index(ds.drop_first(), node_id) {
            assert(ds.drop_first()[k] == ds[k + 1]);
        }
    }
}

} // verus!
