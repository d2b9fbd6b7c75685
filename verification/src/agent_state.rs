//! The agent application's view of its connection, its paired hosts and the
//! hosts it currently sees, and its clipboard polling.
use vstd::prelude::*;
use crate::discovery::{DiscoveredEntry, DiscoveredHosts};
use crate::keyed::{keyed_map, keys_unique, lemma_keyed_at, lemma_keyed_domain};
use crate::store::{host_key, AgentStore, TrustedHost};
use vstd::string::StringSliceAdditionalSpecFns;

verus! {

/// Where the agent's connection stands.
#[derive(Debug)]
pub enum ConnState {
    Idle,
    Connecting { addr: String },
    PairingRequired { addr: String },
    Connected { addr: String, host_id: String },
}

impl Default for ConnState {
    fn default() -> (r: Self)
        ensures
            r is Idle,
    {
        ConnState::Idle
    }
}

/// What the agent shows about itself.
#[derive(Debug)]
pub struct AgentInfo {
    pub device_id: String,
    pub conn_status: String,
    pub conn_host_id: Option<String>,
    pub conn_addr: Option<String>,
}

/// A paired host as the agent lists it.
#[derive(Debug)]
pub struct PairedHostInfo {
    pub host_id: String,
    pub display_name: Option<String>,
    pub last_addr: Option<String>,
    /// The host is currently seen on the network.
    pub is_online: bool,
}

/// A host seen on the network as the agent lists it.
#[derive(Debug)]
pub struct DiscoveredInfo {
    pub host_id: String,
    pub addr: String,
    /// The agent is paired with the host.
    pub is_paired: bool,
}

pub open spec fn opt_view(o: Option<String>) -> Option<Seq<char>> {
    match o {
        Some(s) => Some(s@),
        None => None,
    }
}

/// The status word shown for a connection state.
pub open spec fn status_text(c: ConnState) -> Seq<char> {
    match c {
        ConnState::Idle => "idle"@,
        ConnState::Connecting { .. } => "connecting"@,
        ConnState::PairingRequired { .. } => "pairing"@,
        ConnState::Connected { .. } => "connected"@,
    }
}

/// The address of the connection, if there is one.
pub open spec fn conn_addr_of(c: ConnState) -> Option<Seq<char>> {
    match c {
        ConnState::Idle => None,
        ConnState::Connecting { addr } => Some(addr@),
        ConnState::PairingRequired { addr } => Some(addr@),
        ConnState::Connected { addr, .. } => Some(addr@),
    }
}

/// The host of the connection, once connected.
pub open spec fn conn_host_of(c: ConnState) -> Option<Seq<char>> {
    match c {
        ConnState::Connected { host_id, .. } => Some(host_id@),
        _ => None,
    }
}

fn copy_opt(o: &Option<String>) -> (r: Option<String>)
    ensures
        opt_view(r) == opt_view(*o),
{
    match o {
        Some(s) => Some(s.as_str().to_owned()),
        None => None,
    }
}

/// What the agent shows about itself in connection state `conn`.
pub fn agent_info(device_id: &str, conn: &ConnState) -> (r: AgentInfo)
    ensures
        r.device_id@ == device_id@,
        r.conn_status@ == status_text(*conn),
        opt_view(r.conn_addr) == conn_addr_of(*conn),
        opt_view(r.conn_host_id) == conn_host_of(*conn),
{
    let (status, host_id, addr): (String, Option<String>, Option<String>) = match conn {
        ConnState::Idle => ("idle".to_owned(), None, None),
        ConnState::Connecting { addr } => ("connecting".to_owned(), None, Some(addr.as_str().to_owned())),
        ConnState::PairingRequired { addr } => ("pairing".to_owned(), None, Some(addr.as_str().to_owned())),
        ConnState::Connected { addr, host_id } => (
            "connected".to_owned(),
            Some(host_id.as_str().to_owned()),
            Some(addr.as_str().to_owned()),
        ),
    };
    AgentInfo { device_id: device_id.to_owned(), conn_status: status, conn_host_id: host_id, conn_addr: addr }
}

/// A new connection may start only from `Idle`.
pub fn check_can_connect(conn: &ConnState) -> (r: Result<(), String>)
    ensures
        r is Ok <==> *conn is Idle,
        r matches Err(e) ==> e@ == "already connecting or connected — disconnect first"@,
{
    match conn {
        ConnState::Idle => Ok(()),
        _ => Err("already connecting or connected — disconnect first".to_owned()),
    }
}

/// The paired hosts of `store`, each marked online when `discovered` holds it.
pub fn paired_hosts(store: &AgentStore, discovered: &DiscoveredHosts) -> (r: Vec<PairedHostInfo>)
    ensures
        forall|i: int, j: int| 0 <= i < j < r@.len() ==> r@[i].host_id@ != r@[j].host_id@,
        forall|k: Seq<char>| #[trigger] store@.contains_key(k) ==> exists|i: int| 0 <= i < r@.len() && r@[i].host_id@ == k,
        forall|i: int| 0 <= i < r@.len() ==> {
            let k = (#[trigger] r@[i]).host_id@;
            &&& store@.contains_key(k)
            &&& opt_view(r@[i].display_name) == opt_view(store@[k].display_name)
            &&& opt_view(r@[i].last_addr) == opt_view(store@[k].last_addr)
            &&& r@[i].is_online == discovered@.contains_key(k)
        },
{
    let hosts = store.all_hosts();
    let ghost s = hosts@;
    let mut out: Vec<PairedHostInfo> = Vec::new();
    let mut i: usize = 0;
    while i < hosts.len()
        invariant
            s == hosts@,
            keyed_map(s, host_key()) == store@,
            keys_unique(s, host_key()),
            i <= s.len(),
            out@.len() == i,
            forall|j: int| 0 <= j < i ==> {
                &&& (#[trigger] out@[j]).host_id@ == s[j].host_id@
                &&& opt_view(out@[j].display_name) == opt_view(s[j].display_name)
                &&& opt_view(out@[j].last_addr) == opt_view(s[j].last_addr)
                &&& out@[j].is_online == discovered@.contains_key(s[j].host_id@)
            },
        decreases s.len() - i,
    {
        let h = &hosts[i];
        let online = discovered.contains(h.host_id.as_str());
        out.push(PairedHostInfo {
            host_id: h.host_id.as_str().to_owned(),
            display_name: copy_opt(&h.display_name),
            last_addr: copy_opt(&h.last_addr),
            is_online: online,
        });
        i += 1;
    }
    proof {
        assert forall|k: Seq<char>| #[trigger] store@.contains_key(k) implies exists|i: int| 0 <= i < out@.len() && out@[i].host_id@ == k by {
            lemma_keyed_domain(s, host_key(), k);
            let j = choose|j: int| 0 <= j < s.len() && host_key()(s[j]) == k;
            assert(out@[j].host_id@ == k);
        }
        assert forall|j: int| 0 <= j < out@.len() implies {
            let k = (#[trigger] out@[j]).host_id@;
            &&& store@.contains_key(k)
            &&& opt_view(out@[j].display_name) == opt_view(store@[k].display_name)
            &&& opt_view(out@[j].last_addr) == opt_view(store@[k].last_addr)
            &&& out@[j].is_online == discovered@.contains_key(k)
        } by {
            lemma_keyed_at(s, host_key(), j);
        }
    }
    out
}

/// The hosts `discovered` holds, each marked paired when `store` has it.
pub fn discovered_hosts(discovered: &DiscoveredHosts, store: &AgentStore) -> (r: Vec<DiscoveredInfo>)
    ensures
        forall|i: int, j: int| 0 <= i < j < r@.len() ==> r@[i].host_id@ != r@[j].host_id@,
        forall|k: Seq<char>| #[trigger] discovered@.contains_key(k) ==> exists|i: int| 0 <= i < r@.len() && r@[i].host_id@ == k,
        forall|i: int| 0 <= i < r@.len() ==> {
            let k = (#[trigger] r@[i]).host_id@;
            &&& discovered@.contains_key(k)
            &&& r@[i].addr@ == discovered@[k].addr@
            &&& r@[i].is_paired == store@.contains_key(k)
        },
{
    let entries = discovered.entries();
    let mut out: Vec<DiscoveredInfo> = Vec::new();
    let mut i: usize = 0;
    while i < entries.len()
        invariant
            i <= entries@.len(),
            out@.len() == i,
            forall|j: int| 0 <= j < i ==> {
                &&& (#[trigger] out@[j]).host_id@ == entries@[j].host_id@
                &&& out@[j].addr@ == entries@[j].addr@
                &&& out@[j].is_paired == store@.contains_key(entries@[j].host_id@)
            },
        decreases entries@.len() - i,
    {
        let e = &entries[i];
        let paired = store.get_host(e.host_id.as_str()).is_some();
        out.push(DiscoveredInfo { host_id: e.host_id.as_str().to_owned(), addr: e.addr.as_str().to_owned(), is_paired: paired });
        i += 1;
    }
    proof {
        assert forall|k: Seq<char>| #[trigger] discovered@.contains_key(k) implies exists|i: int| 0 <= i < out@.len() && out@[i].host_id@ == k by {
            let j = choose|j: int| 0 <= j < entries@.len() && entries@[j].host_id@ == k;
            assert(out@[j].host_id@ == k);
        }
        assert forall|a: int, b: int| 0 <= a < b < out@.len() implies out@[a].host_id@ != out@[b].host_id@ by {
            assert(out@[a].host_id@ == entries@[a].host_id@);
            assert(out@[b].host_id@ == entries@[b].host_id@);
        }
        assert forall|j: int| 0 <= j < out@.len() implies {
            let k = (#[trigger] out@[j]).host_id@;
            &&& discovered@.contains_key(k)
            &&& out@[j].addr@ == discovered@[k].addr@
            &&& out@[j].is_paired == store@.contains_key(k)
        } by {
            assert(out@[j].host_id@ == entries@[j].host_id@);
        }
    }
    out
}

/// `a` is the stored address of some host of `m`.
pub open spec fn is_stored_addr(m: Map<Seq<char>, TrustedHost>, a: Seq<char>) -> bool {
    exists|k: Seq<char>| m.contains_key(k) && #[trigger] opt_view(m[k].last_addr) == Some(a)
}

/// The stored addresses of the paired hosts, to try before discovery.
pub fn known_addrs(store: &AgentStore) -> (r: Vec<String>)
    ensures
        forall|i: int| 0 <= i < r@.len() ==> is_stored_addr(store@, (#[trigger] r@[i])@),
        forall|k: Seq<char>| #[trigger] store@.contains_key(k) && store@[k].last_addr is Some
            ==> exists|i: int| 0 <= i < r@.len() && Some(r@[i]@) == opt_view(store@[k].last_addr),
{
    let hosts = store.all_hosts();
    let ghost s = hosts@;
    let mut out: Vec<String> = Vec::new();
    let ghost mut src: Seq<int> = seq![];
    let mut i: usize = 0;
    while i < hosts.len()
        invariant
            s == hosts@,
            keyed_map(s, host_key()) == store@,
            keys_unique(s, host_key()),
            i <= s.len(),
            src.len() == out@.len(),
            forall|j: int| 0 <= j < out@.len() ==> 0 <= #[trigger] src[j] < i && opt_view(s[src[j]].last_addr) == Some(out@[j]@),
            forall|q: int| 0 <= q < i && (#[trigger] s[q]).last_addr is Some ==> exists|j: int| 0 <= j < out@.len() && src[j] == q,
        decreases s.len() - i,
    {
        match &hosts[i].last_addr {
            Some(a) => {
                let ghost prev = src;
                let ghost n = out@.len();
                proof {
                    src = src.push(i as int);
                }
                out.push(a.as_str().to_owned());
                proof {
                    assert forall|q: int| 0 <= q < i + 1 && (#[trigger] s[q]).last_addr is Some implies exists|j: int| 0 <= j < out@.len() && src[j] == q by {
                        if q == i {
                            assert(src[n as int] == q);
                        } else {
                            let j = choose|j: int| 0 <= j < n && prev[j] == q;
                            assert(src[j] == q);
                        }
                    }
                }
            },
            None => {},
        }
        i += 1;
    }
    proof {
        assert forall|j: int| 0 <= j < out@.len() implies is_stored_addr(store@, (#[trigger] out@[j])@) by {
            lemma_keyed_at(s, host_key(), src[j]);
            let k = s[src[j]].host_id@;
            assert(store@.contains_key(k) && opt_view(store@[k].last_addr) == Some(out@[j]@));
        }
        assert forall|k: Seq<char>| #[trigger] store@.contains_key(k) && store@[k].last_addr is Some
            implies exists|i: int| 0 <= i < out@.len() && Some(out@[i]@) == opt_view(store@[k].last_addr) by {
            lemma_keyed_domain(s, host_key(), k);
            let q = choose|q: int| 0 <= q < s.len() && host_key()(s[q]) == k;
            lemma_keyed_at(s, host_key(), q);
            assert(s[q].last_addr is Some);
            let j = choose|j: int| 0 <= j < out@.len() && src[j] == q;
            assert(Some(out@[j]@) == opt_view(store@[k].last_addr));
        }
    }
    out
}

/// The agent's clipboard poller: sends local clipboard text to the host when it
/// changed, skipping empty text and text that came from the host.
#[derive(Debug)]
pub struct ClipboardPoller {
    /// The last text sent.
    pub last: String,
    /// Sequence number of the last text sent.
    pub seq: u64,
}

impl ClipboardPoller {
    pub fn new() -> (r: Self)
        ensures
            r.last@.len() == 0,
            r.seq == 0,
    {
        ClipboardPoller { last: String::new(), seq: 0 }
    }

    /// The local clipboard holds `text`; `from_host` is the text the host last
    /// put there, when tracked. Returns the sequence number and bytes to send,
    /// or None when there is nothing new.
    pub fn poll(&mut self, text: &str, from_host: Option<&str>) -> (r: Option<(u64, Vec<u8>)>)
        requires
            old(self).seq < u64::MAX,
        ensures
            ({
                let fresh = text@ != old(self).last@ && text@.len() > 0 && !(from_host matches Some(h) && h@ == text@);
                &&& fresh ==> (r matches Some((n, bytes)) && n == old(self).seq + 1 && bytes@ == text.spec_bytes()
                    && final(self).seq == n && final(self).last@ == text@)
                &&& !fresh ==> r is None && final(self).seq == old(self).seq && final(self).last@ == old(self).last@
            }),
    {
        if text.eq(self.last.as_str()) || text.is_empty() {
            return None;
        }
        match from_host {
            Some(h) => {
                if text.eq(h) {
                    return None;
                }
            },
            None => {},
        }
        self.last = text.to_owned();
        self.seq = self.seq + 1;
        let bytes = vstd::slice::slice_to_vec(text.as_bytes());
        Some((self.seq, bytes))
    }
}

/// Only plain text from the host goes to the local clipboard.
pub fn accepts_clipboard(content_type: &str) -> (r: bool)
    ensures
        r == (content_type@ == "text/plain"@),
{
    content_type.eq("text/plain")
}

} // verus!
