//! The host's registry of currently connected devices.
use vstd::prelude::*;
use std::time::Instant;
use crate::grid::GridPosition;
use crate::keyed::{keyed_map, keys_unique, lemma_keyed_absent, lemma_keyed_at, lemma_keyed_push, lemma_keyed_remove, lemma_keyed_set};

verus! {

#[derive(Debug, Clone, Copy, PartialEq, Eq, Structural)]
pub enum DeviceStatus {
    Connected,
    Established,
    Disconnected,
}

/// One connected device.
#[derive(Debug)]
pub struct DeviceInfo {
    pub device_id: String,
    pub display_name: Option<String>,
    /// Remote address, `ip:port`.
    pub addr: String,
    pub status: DeviceStatus,
    pub grid_pos: Option<GridPosition>,
    pub connected_at: Instant,
}

pub open spec fn device_key() -> spec_fn(DeviceInfo) -> Seq<char> {
    |d: DeviceInfo| d.device_id@
}

/// The ids of the devices of `m` whose session is established.
pub open spec fn established_ids(m: Map<Seq<char>, DeviceInfo>) -> Set<Seq<char>> {
    Set::new(|k: Seq<char>| m.contains_key(k) && m[k].status == DeviceStatus::Established)
}

/// Registry of all currently connected devices, keyed by device id.
#[derive(Debug)]
pub struct DeviceRegistry {
    devices: Vec<DeviceInfo>,
}

impl View for DeviceRegistry {
    type V = Map<Seq<char>, DeviceInfo>;

    closed spec fn view(&self) -> Map<Seq<char>, DeviceInfo> {
        keyed_map(self.devices@, device_key())
    }
}

spec fn established_count_of(s: Seq<DeviceInfo>) -> nat
    decreases s.len(),
{
    if s.len() == 0 {
        0
    } else {
        established_count_of(s.drop_last()) + if s.last().status == DeviceStatus::Established {
            1nat
        } else {
            0nat
        }
    }
}

proof fn lemma_established_count(s: Seq<DeviceInfo>)
    requires
        keys_unique(s, device_key()),
    ensures
        established_ids(keyed_map(s, device_key())).finite(),
        established_ids(keyed_map(s, device_key())).len() == established_count_of(s),
    decreases s.len(),
{
    let m = keyed_map(s, device_key());
    if s.len() == 0 {
        assert(established_ids(m) =~= Set::<Seq<char>>::empty());
    } else {
        let p = s.drop_last();
        let last = s.last();
        assert(keys_unique(p, device_key()));
        lemma_established_count(p);
        let pm = keyed_map(p, device_key());
        assert forall|j: int| 0 <= j < p.len() implies device_key()(p[j]) != device_key()(last) by {
            assert(p[j] == s[j]);
        }
        lemma_keyed_absent(p, device_key(), last.device_id@);
        if last.status == DeviceStatus::Established {
            assert(established_ids(m) =~= established_ids(pm).insert(last.device_id@));
        } else {
            assert(established_ids(m) =~= established_ids(pm));
        }
    }
}

fn device_position(devices: &Vec<DeviceInfo>, device_id: &str) -> (r: Option<usize>)
    ensures
        r matches Some(i) ==> i < devices@.len() && devices@[i as int].device_id@ == device_id@,
        r is None ==> forall|j: int| 0 <= j < devices@.len() ==> devices@[j].device_id@ != device_id@,
{
    let mut i: usize = 0;
    while i < devices.len()
        invariant
            i <= devices@.len(),
            forall|j: int| 0 <= j < i ==> devices@[j].device_id@ != device_id@,
        decreases devices@.len() - i,
    {
        if devices[i].device_id.as_str().eq(device_id) {
            return Some(i);
        }
        i += 1;
    }
    None
}

impl DeviceRegistry {
    #[verifier::type_invariant]
    spec fn inv(self) -> bool {
        keys_unique(self.devices@, device_key())
    }

    pub fn new() -> (r: Self)
        ensures
            r@ == Map::<Seq<char>, DeviceInfo>::empty(),
    {
        DeviceRegistry { devices: Vec::new() }
    }

    /// Record `info`, replacing any record with the same device id.
    pub fn insert(&mut self, info: DeviceInfo)
        ensures
            final(self)@ == old(self)@.insert(info.device_id@, info),
    {
        proof {
            use_type_invariant(&*self);
        }
        let found = device_position(&self.devices, info.device_id.as_str());
        let mut devices: Vec<DeviceInfo> = Vec::new();
        std::mem::swap(&mut devices, &mut self.devices);
        let ghost orig = devices@;
        match found {
            Some(i) => {
                proof {
                    lemma_keyed_set(orig, device_key(), i as int, info);
                }
                devices.set(i, info);
            },
            None => {
                proof {
                    lemma_keyed_push(orig, device_key(), info);
                }
                devices.push(info);
            },
        }
        self.devices = devices;
    }

    /// Remove the record of `device_id` and return it, if there was one.
    pub fn remove(&mut self, device_id: &str) -> (r: Option<DeviceInfo>)
        ensures
            final(self)@ == old(self)@.remove(device_id@),
            r is Some <==> old(self)@.contains_key(device_id@),
            r matches Some(d) ==> d == old(self)@[device_id@],
    {
        proof {
            use_type_invariant(&*self);
        }
        let found = device_position(&self.devices, device_id);
        let mut devices: Vec<DeviceInfo> = Vec::new();
        std::mem::swap(&mut devices, &mut self.devices);
        let ghost orig = devices@;
        let r = match found {
            Some(i) => {
                proof {
                    lemma_keyed_at(orig, device_key(), i as int);
                    lemma_keyed_remove(orig, device_key(), i as int);
                }
                Some(devices.remove(i))
            },
            None => {
                proof {
                    lemma_keyed_absent(orig, device_key(), device_id@);
                    assert(keyed_map(orig, device_key()).remove(device_id@) =~= keyed_map(orig, device_key()));
                }
                None
            },
        };
        self.devices = devices;
        r
    }

    /// The record of `device_id`, if any.
    pub fn get(&self, device_id: &str) -> (r: Option<&DeviceInfo>)
        ensures
            r is Some <==> self@.contains_key(device_id@),
            r matches Some(d) ==> *d == self@[device_id@],
    {
        proof {
            use_type_invariant(self);
        }
        match device_position(&self.devices, device_id) {
            Some(i) => {
                proof {
                    lemma_keyed_at(self.devices@, device_key(), i as int);
                }
                Some(&self.devices[i])
            },
            None => {
                proof {
                    lemma_keyed_absent(self.devices@, device_key(), device_id@);
                }
                None
            },
        }
    }

    /// Set the session status of `device_id`, if it is known.
    pub fn set_status(&mut self, device_id: &str, status: DeviceStatus)
        ensures
            old(self)@.contains_key(device_id@) ==> final(self)@ == old(self)@.insert(
                device_id@,
                DeviceInfo { status, ..old(self)@[device_id@] },
            ),
            !old(self)@.contains_key(device_id@) ==> final(self)@ == old(self)@,
    {
        proof {
            use_type_invariant(&*self);
        }
        let found = device_position(&self.devices, device_id);
        let mut devices: Vec<DeviceInfo> = Vec::new();
        std::mem::swap(&mut devices, &mut self.devices);
        let ghost orig = devices@;
        match found {
            Some(i) => {
                let old_d = devices.remove(i);
                let d = DeviceInfo { status, ..old_d };
                devices.insert(i, d);
                proof {
                    lemma_keyed_at(orig, device_key(), i as int);
                    assert(devices@ =~= orig.update(i as int, d));
                    lemma_keyed_set(orig, device_key(), i as int, d);
                }
            },
            None => {
                proof {
                    lemma_keyed_absent(orig, device_key(), device_id@);
                }
            },
        }
        self.devices = devices;
    }

    /// Set the grid cell of `device_id`, if it is known.
    pub fn set_grid_pos(&mut self, device_id: &str, pos: Option<GridPosition>)
        ensures
            old(self)@.contains_key(device_id@) ==> final(self)@ == old(self)@.insert(
                device_id@,
                DeviceInfo { grid_pos: pos, ..old(self)@[device_id@] },
            ),
            !old(self)@.contains_key(device_id@) ==> final(self)@ == old(self)@,
    {
        proof {
            use_type_invariant(&*self);
        }
        let found = device_position(&self.devices, device_id);
        let mut devices: Vec<DeviceInfo> = Vec::new();
        std::mem::swap(&mut devices, &mut self.devices);
        let ghost orig = devices@;
        match found {
            Some(i) => {
                let old_d = devices.remove(i);
                let d = DeviceInfo { grid_pos: pos, ..old_d };
                devices.insert(i, d);
                proof {
                    lemma_keyed_at(orig, device_key(), i as int);
                    assert(devices@ =~= orig.update(i as int, d));
                    lemma_keyed_set(orig, device_key(), i as int, d);
                }
            },
            None => {
                proof {
                    lemma_keyed_absent(orig, device_key(), device_id@);
                }
            },
        }
        self.devices = devices;
    }

    /// All records, one per device id, in no particular order.
    pub fn all(&self) -> (r: &[DeviceInfo])
        ensures
            keyed_map(r@, device_key()) == self@,
            keys_unique(r@, device_key()),
    {
        proof {
            use_type_invariant(self);
        }
        self.devices.as_slice()
    }

    /// How many devices have an established session.
    pub fn established_count(&self) -> (r: usize)
        ensures
            r == established_ids(self@).len(),
    {
        proof {
            use_type_invariant(self);
            lemma_established_count(self.devices@);
        }
        let mut n: usize = 0;
        let mut i: usize = 0;
        while i < self.devices.len()
            invariant
                i <= self.devices@.len(),
                n == established_count_of(self.devices@.take(i as int)),
                n <= i,
            decreases self.devices@.len() - i,
        {
            assert(self.devices@.take(i + 1).drop_last() =~= self.devices@.take(i as int));
            if self.devices[i].status == DeviceStatus::Established {
                n += 1;
            }
            i += 1;
        }
        assert(self.devices@.take(i as int) =~= self.devices@);
        n
    }
}

impl Default for DeviceRegistry {
    fn default() -> (r: Self)
        ensures
            r@ == Map::<Seq<char>, DeviceInfo>::empty(),
    {
        Self::new()
    }
}

/// Recording a device and then asking for it gives it back; removing it
/// leaves it unknown.
pub proof fn lemma_insert_then_get(m: Map<Seq<char>, DeviceInfo>, info: DeviceInfo)
    ensures
        m.insert(info.device_id@, info).contains_key(info.device_id@),
        m.insert(info.device_id@, info)[info.device_id@] == info,
        !m.insert(info.device_id@, info).remove(info.device_id@).contains_key(info.device_id@),
{
}

} // verus!
