//! Service discovery on the local network: how hosts name themselves, and the
//! agent's list of hosts currently seen.
use vstd::prelude::*;
use vstd::utf8::{decode_utf8, is_char_boundary};
use vstd::string::StringSliceAdditionalSpecFns;
use dashmap::DashMap;
use crate::scan::{chars_of, starts_with};
use crate::text::{concat_str, push_char};

verus! {

/// The service type hosts advertise.
pub const SERVICE_TYPE: &'static str = "_contixis._tcp.local.";

/// How many bytes of the host id go into its instance name.
pub open spec fn id_prefix_len(host_id: &str) -> int {
    if host_id.spec_bytes().len() < 8 { host_id.spec_bytes().len() as int } else { 8 }
}

/// The start of the host id that goes into its instance name: its first
/// 8 bytes (all of it when shorter).
pub open spec fn id_prefix(host_id: &str) -> Seq<char> {
    decode_utf8(host_id.spec_bytes().take(id_prefix_len(host_id)))
}

/// The instance name a host advertises: "contixis-" and the start of its id.
pub open spec fn instance_text(host_id: &str) -> Seq<char> {
    "contixis-"@ + id_prefix(host_id)
}

fn id_head(host_id: &str) -> (r: &str)
    requires
        is_char_boundary(host_id.spec_bytes(), id_prefix_len(host_id)),
    ensures
        r@ == id_prefix(host_id),
{
    let len = host_id.as_bytes().len();
    let n: usize = if len < 8 { len } else { 8 };
    let (head, _) = host_id.split_at(n);
    proof {
        vstd::utf8::encode_utf8_decode_utf8(head@);
        assert(head.spec_bytes() =~= host_id.spec_bytes().take(n as int));
    }
    head
}

/// The instance name of the host `host_id`. The id's first 8 bytes must end on
/// a character boundary.
pub fn instance_name(host_id: &str) -> (r: String)
    requires
        is_char_boundary(host_id.spec_bytes(), id_prefix_len(host_id)),
    ensures
        r@ == instance_text(host_id),
{
    concat_str("contixis-", id_head(host_id))
}

/// The full service name of the host `host_id`: its instance name, a dot, and
/// the service type (what unregistering names).
pub fn service_fullname(host_id: &str) -> (r: String)
    requires
        is_char_boundary(host_id.spec_bytes(), id_prefix_len(host_id)),
    ensures
        r@ == instance_text(host_id) + "."@ + SERVICE_TYPE@,
{
    let a = instance_name(host_id);
    let b = concat_str(a.as_str(), ".");
    concat_str(b.as_str(), SERVICE_TYPE)
}

/// The host name under the `.local.` domain.
pub fn host_fqdn(hostname: &str) -> (r: String)
    ensures
        r@ == hostname@ + ".local."@,
{
    concat_str(hostname, ".local.")
}

/// Position of the first `.` in `s`, or `s.len()`.
pub open spec fn first_dot(s: Seq<char>) -> nat
    decreases s.len(),
{
    if s.len() == 0 || s[0] == '.' {
        0
    } else {
        1 + first_dot(s.drop_first())
    }
}

proof fn lemma_first_dot_at(t: Seq<char>, m: int)
    requires
        0 <= m <= t.len(),
        forall|k: int| 0 <= k < m ==> t[k] != '.',
        m < t.len() ==> t[m] == '.',
    ensures
        first_dot(t) == m,
    decreases m,
{
    if m > 0 {
        lemma_first_dot_at(t.drop_first(), m - 1);
    }
}

/// The instance part of a full service name ("instance._contixis._tcp.local."):
/// everything before the first dot.
pub fn instance_of(fullname: &str) -> (r: String)
    ensures
        r@ == fullname@.take(first_dot(fullname@) as int),
{
    let cs = chars_of(fullname);
    let mut out = String::new();
    let mut i: usize = 0;
    while i < cs.len() && cs[i] != '.'
        invariant
            cs@ == fullname@,
            i <= cs@.len(),
            forall|k: int| 0 <= k < i ==> cs@[k] != '.',
            out@ == cs@.take(i as int),
        decreases cs@.len() - i,
    {
        push_char(&mut out, cs[i]);
        assert(cs@.take(i + 1) =~= cs@.take(i as int).push(cs@[i as int]));
        i += 1;
    }
    proof {
        lemma_first_dot_at(cs@, i as int);
    }
    out
}

/// A host seen on the network.
#[derive(Debug)]
pub struct DiscoveredHost {
    /// Full service name of the host's instance.
    pub instance_name: String,
    pub host_id: String,
    /// Socket address, `ip:port`.
    pub addr: String,
}

/// What the browser reports.
#[derive(Debug)]
pub enum DiscoveryEvent {
    Found(DiscoveredHost),
    /// The instance name (e.g. "contixis-30820190") of the host that went away.
    Lost { instance: String },
}

/// The hosts a resolved service stands for: one per address, all with the
/// service's full name and its `host_id` property ("unknown" when it has none).
pub fn resolved_to_hosts(host_id: Option<&str>, fullname: &str, addrs: &[String]) -> (r: Vec<DiscoveredHost>)
    ensures
        r@.len() == addrs@.len(),
        forall|i: int| 0 <= i < r@.len() ==> {
            &&& (#[trigger] r@[i]).instance_name@ == fullname@
            &&& r@[i].addr@ == addrs@[i]@
            &&& r@[i].host_id@ == match host_id {
                Some(h) => h@,
                None => "unknown"@,
            }
        },
{
    let mut out: Vec<DiscoveredHost> = Vec::new();
    let mut i: usize = 0;
    while i < addrs.len()
        invariant
            i <= addrs@.len(),
            out@.len() == i,
            forall|j: int| 0 <= j < i ==> {
                &&& (#[trigger] out@[j]).instance_name@ == fullname@
                &&& out@[j].addr@ == addrs@[j]@
                &&& out@[j].host_id@ == match host_id {
                    Some(h) => h@,
                    None => "unknown"@,
                }
            },
        decreases addrs@.len() - i,
    {
        let id = match host_id {
            Some(h) => h.to_owned(),
            None => "unknown".to_owned(),
        };
        out.push(DiscoveredHost { instance_name: fullname.to_owned(), host_id: id, addr: addrs[i].as_str().to_owned() });
        i += 1;
    }
    out
}

/// A discovered host as the agent lists it.
#[derive(Debug)]
pub struct DiscoveredEntry {
    pub host_id: String,
    pub addr: String,
    /// Full service name (used to match removal events).
    pub instance: String,
}

#[verifier::external_type_specification]
#[verifier::external_body]
#[verifier::reject_recursive_types(K)]
#[verifier::reject_recursive_types(V)]
#[verifier::reject_recursive_types(S)]
pub struct ExDashMap<K, V, S>(DashMap<K, V, S>);

/// What a map of discovered hosts holds: the entry stored under each key.
pub uninterp spec fn dash_entries(m: DashMap<String, DiscoveredEntry>) -> Map<Seq<char>, DiscoveredEntry>;

/// Calls `DashMap::new`: an empty map.
#[verifier::external_body]
fn dash_new() -> (r: DashMap<String, DiscoveredEntry>)
    ensures
        dash_entries(r).dom().is_empty(),
{
    DashMap::new()
}

/// Calls `DashMap::insert`: `value` is stored under `key`, replacing what was
/// there. The old value it hands back is dropped.
#[verifier::external_body]
fn dash_insert(m: &mut DashMap<String, DiscoveredEntry>, key: String, value: DiscoveredEntry)
    ensures
        dash_entries(*final(m)) == dash_entries(*old(m)).insert(key@, value),
{
    m.insert(key, value);
}

/// Calls `DashMap::remove`: the entry under `key`, if any, is taken out. The
/// removed pair it hands back is dropped.
#[verifier::external_body]
fn dash_remove(m: &mut DashMap<String, DiscoveredEntry>, key: &str)
    ensures
        dash_entries(*final(m)) == dash_entries(*old(m)).remove(key@),
{
    m.remove(key);
}

/// Calls `DashMap::contains_key`.
#[verifier::external_body]
fn dash_contains(m: &DashMap<String, DiscoveredEntry>, key: &str) -> (r: bool)
    ensures
        r == dash_entries(*m).contains_key(key@),
{
    m.contains_key(key)
}

/// Walks the map with `DashMap::iter` and copies, for each entry, its key and
/// the entry's address and instance name. The walk visits every key once, in an
/// order that depends on the hasher's seed, so the order is left unsaid.
#[verifier::external_body]
fn dash_listing(m: &DashMap<String, DiscoveredEntry>) -> (r: Vec<(String, String, String)>)
    ensures
        forall|i: int, j: int| 0 <= i < j < r@.len() ==> r@[i].0@ != r@[j].0@,
        forall|k: Seq<char>| #[trigger] dash_entries(*m).contains_key(k) ==> exists|i: int| 0 <= i < r@.len() && r@[i].0@ == k,
        forall|i: int| 0 <= i < r@.len() ==> {
            let k = (#[trigger] r@[i]).0@;
            &&& dash_entries(*m).contains_key(k)
            &&& r@[i].1@ == dash_entries(*m)[k].addr@
            &&& r@[i].2@ == dash_entries(*m)[k].instance@
        },
{
    m.iter().map(|e| (e.key().clone(), e.value().addr.clone(), e.value().instance.clone())).collect()
}

/// The hosts an agent currently sees, keyed by host id.
#[derive(Debug)]
pub struct DiscoveredHosts {
    entries: DashMap<String, DiscoveredEntry>,
}

impl View for DiscoveredHosts {
    type V = Map<Seq<char>, DiscoveredEntry>;

    closed spec fn view(&self) -> Map<Seq<char>, DiscoveredEntry> {
        dash_entries(self.entries)
    }
}

fn str_starts_with(s: &str, p: &str) -> (r: bool)
    ensures
        r == starts_with(s@, p@),
{
    let a = chars_of(s);
    let b = chars_of(p);
    crate::scan::has_prefix(a.as_slice(), b.as_slice())
}

fn copy_str(s: &String) -> (r: String)
    ensures
        r@ == s@,
{
    s.as_str().to_owned()
}

impl DiscoveredHosts {
    pub fn new() -> (r: Self)
        ensures
            r@ == Map::<Seq<char>, DiscoveredEntry>::empty(),
    {
        let entries = dash_new();
        assert(dash_entries(entries) =~= Map::<Seq<char>, DiscoveredEntry>::empty());
        DiscoveredHosts { entries }
    }

    /// Record a host that was found, replacing an older entry of the same id.
    pub fn found(&mut self, entry: DiscoveredEntry)
        ensures
            final(self)@ == old(self)@.insert(entry.host_id@, entry),
    {
        let key = copy_str(&entry.host_id);
        dash_insert(&mut self.entries, key, entry);
    }

    /// A host instance went away: forget a host whose instance name begins with
    /// `instance`, and return its id. None, and nothing forgotten, when no
    /// entry matches. Which of several matching hosts goes is left open.
    pub fn lost(&mut self, instance: &str) -> (r: Option<String>)
        ensures
            match r {
                Some(id) => {
                    &&& old(self)@.contains_key(id@)
                    &&& starts_with(old(self)@[id@].instance@, instance@)
                    &&& final(self)@ == old(self)@.remove(id@)
                },
                None => {
                    &&& final(self)@ == old(self)@
                    &&& forall|k: Seq<char>| #[trigger] old(self)@.contains_key(k) ==> !starts_with(old(self)@[k].instance@, instance@)
                },
            },
    {
        let listing = dash_listing(&self.entries);
        let ghost m = dash_entries(self.entries);
        let mut i: usize = 0;
        while i < listing.len()
            invariant
                m == dash_entries(self.entries),
                self.entries == old(self).entries,
                i <= listing@.len(),
                forall|j: int| 0 <= j < listing@.len() ==> {
                    let k = (#[trigger] listing@[j]).0@;
                    &&& m.contains_key(k)
                    &&& listing@[j].2@ == m[k].instance@
                },
                forall|j: int| 0 <= j < i ==> !starts_with(#[trigger] listing@[j].2@, instance@),
            decreases listing@.len() - i,
        {
            if str_starts_with(listing[i].2.as_str(), instance) {
                let id = copy_str(&listing[i].0);
                dash_remove(&mut self.entries, id.as_str());
                return Some(id);
            }
            i += 1;
        }
        proof {
            assert forall|k: Seq<char>| #[trigger] m.contains_key(k) implies !starts_with(m[k].instance@, instance@) by {
                let j = choose|j: int| 0 <= j < listing@.len() && listing@[j].0@ == k;
                assert(!starts_with(listing@[j].2@, instance@));
            }
        }
        None
    }

    /// Whether a host with this id is currently seen.
    pub fn contains(&self, host_id: &str) -> (r: bool)
        ensures
            r == self@.contains_key(host_id@),
    {
        dash_contains(&self.entries, host_id)
    }

    /// All entries, one per host id, in no particular order; each carries its
    /// key as host id.
    pub fn entries(&self) -> (r: Vec<DiscoveredEntry>)
        ensures
            forall|i: int, j: int| 0 <= i < j < r@.len() ==> r@[i].host_id@ != r@[j].host_id@,
            forall|k: Seq<char>| #[trigger] self@.contains_key(k) ==> exists|i: int| 0 <= i < r@.len() && r@[i].host_id@ == k,
            forall|i: int| 0 <= i < r@.len() ==> {
                let k = (#[trigger] r@[i]).host_id@;
                &&& self@.contains_key(k)
                &&& r@[i].addr@ == self@[k].addr@
                &&& r@[i].instance@ == self@[k].instance@
            },
    {
        let listing = dash_listing(&self.entries);
        let mut out: Vec<DiscoveredEntry> = Vec::new();
        let mut i: usize = 0;
        while i < listing.len()
            invariant
                i <= listing@.len(),
                out@.len() == i,
                forall|j: int| 0 <= j < i ==> {
                    &&& (#[trigger] out@[j]).host_id@ == listing@[j].0@
                    &&& out@[j].addr@ == listing@[j].1@
                    &&& out@[j].instance@ == listing@[j].2@
                },
            decreases listing@.len() - i,
        {
            let t = &listing[i];
            out.push(DiscoveredEntry { host_id: copy_str(&t.0), addr: copy_str(&t.1), instance: copy_str(&t.2) });
            i += 1;
        }
        proof {
            assert forall|k: Seq<char>| #[trigger] self@.contains_key(k) implies exists|i: int| 0 <= i < out@.len() && out@[i].host_id@ == k by {
                let j = choose|j: int| 0 <= j < listing@.len() && listing@[j].0@ == k;
                assert(out@[j].host_id@ == k);
            }
            assert forall|a: int, b: int| 0 <= a < b < out@.len() implies out@[a].host_id@ != out@[b].host_id@ by {
                assert(out@[a].host_id@ == listing@[a].0@);
                assert(out@[b].host_id@ == listing@[b].0@);
            }
            assert forall|j: int| 0 <= j < out@.len() implies {
                let k = (#[trigger] out@[j]).host_id@;
                &&& self@.contains_key(k)
                &&& out@[j].addr@ == self@[k].addr@
                &&& out@[j].instance@ == self@[k].instance@
            } by {
                assert(out@[j].host_id@ == listing@[j].0@);
            }
        }
        out
    }
}

/// Calls `hostname::get` and keeps the name when it is valid Unicode. The name
/// depends on the machine, so nothing is claimed of it.
#[verifier::external_body]
pub(crate) fn system_hostname() -> (r: Option<String>) {
    hostname::get().ok().and_then(|h| h.into_string().ok())
}

/// `found`, or `fallback` when there is none.
pub fn name_or(found: Option<String>, fallback: &str) -> (r: String)
    ensures
        r@ == match found {
            Some(n) => n@,
            None => fallback@,
        },
{
    match found {
        Some(n) => n,
        None => fallback.to_owned(),
    }
}

/// This machine's host name, "localhost" when it cannot be read.
pub fn local_hostname() -> (r: String) {
    name_or(system_hostname(), "localhost")
}

} // verus!
