//! BlueZ data for the Settings > Devices > Bluetooth page: the adapter and
//! device snapshot built from BlueZ's managed objects, the order devices are
//! listed in, and the D-Bus methods behind each device action.

use vstd::prelude::*;
use crate::text::{chars_of, lex_le, lex_le_chars, lowercase, to_lowercase, lemma_lex_total,
    lemma_lex_trans};

verus! {

/// One Bluetooth device (paired or just discovered).
pub struct BtDevice {
    pub name: String,
    pub address: String,
    pub path: String,
    pub paired: bool,
    pub connected: bool,
}

/// Snapshot of the adapter and its known devices.
pub struct BtState {
    /// An adapter exists at all.
    pub present: bool,
    pub powered: bool,
    pub discovering: bool,
    pub devices: Vec<BtDevice>,
}

/// The properties of a device object.
pub struct DeviceProps {
    pub name: String,
    pub address: String,
    pub paired: bool,
    pub connected: bool,
}

/// One managed object: its path, and its adapter (Powered, Discovering) and
/// device interfaces when it has them.
pub struct ManagedObject {
    pub path: String,
    pub adapter: Option<(bool, bool)>,
    pub device: Option<DeviceProps>,
}

/// A device as plain values: (name, address, path, paired, connected).
pub open spec fn dev_view(d: BtDevice) -> (Seq<char>, Seq<char>, Seq<char>, bool, bool) {
    (d.name@, d.address@, d.path@, d.paired, d.connected)
}

pub open spec fn dev_views(v: Seq<BtDevice>) -> Seq<(Seq<char>, Seq<char>, Seq<char>, bool, bool)> {
    v.map_values(|d: BtDevice| dev_view(d))
}

/// The device of a managed object, named by its address when it has no name.
pub open spec fn device_of(o: ManagedObject) -> Option<(Seq<char>, Seq<char>, Seq<char>, bool, bool)> {
    match o.device {
        Some(d) => Some((if d.name@.len() == 0 { d.address@ } else { d.name@ }, d.address@, o.path@, d.paired,
            d.connected)),
        None => None,
    }
}

/// The listing order: paired first, then connected, then by lowercased name.
pub open spec fn dev_le(a: (Seq<char>, Seq<char>, Seq<char>, bool, bool), b: (Seq<char>, Seq<char>, Seq<char>, bool, bool)) -> bool {
    if a.3 != b.3 {
        a.3
    } else if a.4 != b.4 {
        a.4
    } else {
        lex_le(lowercase(a.0), lowercase(b.0))
    }
}

pub open spec fn devs_sorted(s: Seq<(Seq<char>, Seq<char>, Seq<char>, bool, bool)>) -> bool {
    forall|i: int, j: int| 0 <= i < j < s.len() ==> dev_le(s[i], s[j])
}

/// The adapter flags of the last object that has an adapter.
pub open spec fn last_adapter(objs: Seq<ManagedObject>) -> Option<(bool, bool)>
    decreases objs.len(),
{
    if objs.len() == 0 {
        None
    } else {
        match objs.last().adapter {
            Some(a) => Some(a),
            None => last_adapter(objs.drop_last()),
        }
    }
}

proof fn lemma_dev_le_trans(a: (Seq<char>, Seq<char>, Seq<char>, bool, bool),
    b: (Seq<char>, Seq<char>, Seq<char>, bool, bool), c: (Seq<char>, Seq<char>, Seq<char>, bool, bool))
    requires
        dev_le(a, b),
        dev_le(b, c),
    ensures
        dev_le(a, c),
{
    if a.3 == b.3 && b.3 == c.3 && a.4 == b.4 && b.4 == c.4 {
        lemma_lex_trans(lowercase(a.0), lowercase(b.0), lowercase(c.0));
    }
}

/// Insert `x` into the sorted list after every entry it does not precede.
fn insert_device(list: &mut Vec<BtDevice>, x: BtDevice)
    requires
        devs_sorted(dev_views(old(list)@)),
    ensures
        devs_sorted(dev_views(final(list)@)),
        dev_views(final(list)@).to_multiset() == dev_views(old(list)@).to_multiset().insert(dev_view(x)),
{
    let ghost s0 = dev_views(list@);
    let ghost xv = dev_view(x);
    let xl = to_lowercase(&chars_of(x.name.as_str()));
    let mut i: usize = 0;
    while i < list.len()
        invariant
            i <= list.len(),
            s0 == dev_views(list@),
            devs_sorted(s0),
            xv == dev_view(x),
            xl@ == lowercase(x.name@),
            forall|k: int| 0 <= k < i ==> dev_le(#[trigger] s0[k], xv),
        ensures
            i <= list.len(),
            s0 == dev_views(list@),
            forall|k: int| 0 <= k < i ==> dev_le(#[trigger] s0[k], xv),
            i < list.len() ==> !dev_le(s0[i as int], xv),
        decreases list.len() - i,
    {
        let y = &list[i];
        let le = if y.paired != x.paired {
            y.paired
        } else if y.connected != x.connected {
            y.connected
        } else {
            let yl = to_lowercase(&chars_of(y.name.as_str()));
            lex_le_chars(&yl, &xl)
        };
        assert(s0[i as int] == dev_view(list@[i as int]));
        if !le {
            break;
        }
        i += 1;
    }
    proof {
        if i < s0.len() {
            lemma_lex_total(lowercase(s0[i as int].0), lowercase(xv.0));
        }
        assert forall|k: int| i <= k < s0.len() implies dev_le(xv, #[trigger] s0[k]) by {
            if k > i {
                lemma_dev_le_trans(xv, s0[i as int], s0[k]);
            }
        }
    }
    list.insert(i, x);
    let ghost s1 = dev_views(list@);
    assert(s1 =~= s0.insert(i as int, xv));
    assert forall|a: int, b: int| 0 <= a < b < s1.len() implies dev_le(s1[a], s1[b]) by {
        if a < i {
            assert(s1[a] == s0[a]);
            if b < i {
                assert(s1[b] == s0[b]);
            } else if b == i {
            } else {
                assert(s1[b] == s0[b - 1]);
                lemma_dev_le_trans(s0[a], xv, s0[b - 1]);
            }
        } else if a == i {
            assert(s1[b] == s0[b - 1]);
        } else {
            assert(s1[a] == s0[a - 1]);
            assert(s1[b] == s0[b - 1]);
        }
    }
    proof {
        vstd::seq_lib::to_multiset_insert(s0, i as int, xv);
    }
}

/// The adapter and device snapshot from BlueZ's managed objects (in the
/// order they were read): the adapter flags of the last adapter object, and
/// the devices, paired (then connected) first, then by lowercased name.
pub fn state(objs: &Vec<ManagedObject>) -> (st: BtState)
    ensures
        st.present == (last_adapter(objs@) is Some),
        (st.powered, st.discovering) == match last_adapter(objs@) { Some(a) => a, None => (false, false) },
        devs_sorted(dev_views(st.devices@)),
        dev_views(st.devices@).to_multiset() == objs@.filter_map(|o: ManagedObject| device_of(o)).to_multiset(),
{
    let mut st = BtState { present: false, powered: false, discovering: false, devices: Vec::new() };
    let mut i: usize = 0;
    assert(objs@.take(0) =~= Seq::<ManagedObject>::empty());
    assert(dev_views(st.devices@) =~= objs@.take(0).filter_map(|o: ManagedObject| device_of(o)));
    while i < objs.len()
        invariant
            i <= objs.len(),
            st.present == (last_adapter(objs@.take(i as int)) is Some),
            (st.powered, st.discovering) == match last_adapter(objs@.take(i as int)) { Some(a) => a, None => (false, false) },
            devs_sorted(dev_views(st.devices@)),
            dev_views(st.devices@).to_multiset()
                == objs@.take(i as int).filter_map(|o: ManagedObject| device_of(o)).to_multiset(),
        decreases objs.len() - i,
    {
        let ghost t = objs@.take(i + 1);
        assert(t.drop_last() =~= objs@.take(i as int));
        assert(t.last() == objs@[i as int]);
        let o = &objs[i];
        match o.adapter {
            Some((p, d)) => {
                st.present = true;
                st.powered = p;
                st.discovering = d;
            }
            None => {}
        }
        let ghost before = objs@.take(i as int).filter_map(|o: ManagedObject| device_of(o));
        match &o.device {
            Some(dp) => {
                let name = if dp.name.as_str().is_empty() { dp.address.clone() } else { dp.name.clone() };
                let dev = BtDevice { name, address: dp.address.clone(), path: o.path.clone(), paired: dp.paired,
                    connected: dp.connected };
                let ghost dv = dev_view(dev);
                assert(device_of(objs@[i as int]) == Some(dv));
                insert_device(&mut st.devices, dev);
                proof {
                    assert(t.filter_map(|o: ManagedObject| device_of(o)) == before + seq![dv]);
                    assert(before + seq![dv] =~= before.push(dv));
                    vstd::seq_lib::to_multiset_build(before, dv);
                }
            }
            None => {
                assert(t.filter_map(|o: ManagedObject| device_of(o)) == before);
            }
        }
        i += 1;
    }
    assert(objs@.take(objs.len() as int) =~= objs@);
    st
}

/// The path of the first object that has an adapter.
pub fn adapter_path(objs: &Vec<ManagedObject>) -> (p: Option<String>)
    ensures
        match p {
            Some(s) => exists|i: int| 0 <= i < objs@.len() && objs@[i].adapter is Some && s@ == objs@[i].path@
                && forall|j: int| 0 <= j < i ==> objs@[j].adapter is None,
            None => forall|i: int| 0 <= i < objs@.len() ==> objs@[i].adapter is None,
        },
{
    let mut i: usize = 0;
    while i < objs.len()
        invariant
            i <= objs.len(),
            forall|j: int| 0 <= j < i ==> objs@[j].adapter is None,
        decreases objs.len() - i,
    {
        if objs[i].adapter.is_some() {
            return Some(objs[i].path.clone());
        }
        i += 1;
    }
    None
}

/// A device action of the Bluetooth page.
#[derive(Debug, Clone, Copy, PartialEq, Eq, Structural)]
pub enum DeviceAction {
    Pair,
    Connect,
    Disconnect,
}

/// The `org.bluez.Device1` method behind a device action.
pub fn device_method(a: DeviceAction) -> (m: &'static str)
    ensures
        m@ == match a {
            DeviceAction::Pair => "Pair"@,
            DeviceAction::Connect => "Connect"@,
            DeviceAction::Disconnect => "Disconnect"@,
        },
{
    match a {
        DeviceAction::Pair => "Pair",
        DeviceAction::Connect => "Connect",
        DeviceAction::Disconnect => "Disconnect",
    }
}

/// The `org.bluez.Adapter1` discovery method: start or stop.
pub fn discovery_method(on: bool) -> (m: &'static str)
    ensures
        m@ == if on { "StartDiscovery"@ } else { "StopDiscovery"@ },
{
    if on { "StartDiscovery" } else { "StopDiscovery" }
}

} // verus!
