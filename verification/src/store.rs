//! Trusted-peer records kept by each side after pairing.
use vstd::prelude::*;
use crate::keyed::{keyed_map, keys_unique, lemma_keyed_absent, lemma_keyed_at, lemma_keyed_own_key, lemma_keyed_push, lemma_keyed_remove, lemma_keyed_set};

verus! {

/// A trusted host record stored on an agent.
#[derive(Debug, Clone)]
pub struct TrustedHost {
    pub host_id: String,
    /// DER-encoded CA certificate for this host's PKI.
    pub ca_der: Vec<u8>,
    /// Last-known address (`ip:port`) — used as a reconnect hint.
    pub last_addr: Option<String>,
    /// Friendly display name chosen by the host.
    pub display_name: Option<String>,
}

/// A trusted agent record stored on the host.
#[derive(Debug, Clone)]
pub struct TrustedAgent {
    pub device_id: String,
    /// DER-encoded agent certificate (issued by this host's CA).
    pub cert_der: Vec<u8>,
    pub display_name: Option<String>,
}

pub open spec fn host_key() -> spec_fn(TrustedHost) -> Seq<char> {
    |h: TrustedHost| h.host_id@
}

pub open spec fn agent_key() -> spec_fn(TrustedAgent) -> Seq<char> {
    |a: TrustedAgent| a.device_id@
}

/// Paired-host records for the agent side, keyed by host id.
#[derive(Debug)]
pub struct AgentStore {
    trusted_hosts: Vec<TrustedHost>,
}

/// Paired-agent records for the host side, keyed by device id.
#[derive(Debug)]
pub struct HostStore {
    trusted_agents: Vec<TrustedAgent>,
}

impl View for AgentStore {
    type V = Map<Seq<char>, TrustedHost>;

    closed spec fn view(&self) -> Map<Seq<char>, TrustedHost> {
        keyed_map(self.trusted_hosts@, host_key())
    }
}

impl View for HostStore {
    type V = Map<Seq<char>, TrustedAgent>;

    closed spec fn view(&self) -> Map<Seq<char>, TrustedAgent> {
        keyed_map(self.trusted_agents@, agent_key())
    }
}

fn host_position(hosts: &Vec<TrustedHost>, host_id: &str) -> (r: Option<usize>)
    ensures
        r matches Some(i) ==> i < hosts@.len() && hosts@[i as int].host_id@ == host_id@,
        r is None ==> forall|j: int| 0 <= j < hosts@.len() ==> hosts@[j].host_id@ != host_id@,
{
    let mut i: usize = 0;
    while i < hosts.len()
        invariant
            i <= hosts@.len(),
            forall|j: int| 0 <= j < i ==> hosts@[j].host_id@ != host_id@,
        decreases hosts@.len() - i,
    {
        if hosts[i].host_id.as_str().eq(host_id) {
            return Some(i);
        }
        i += 1;
    }
    None
}

fn agent_position(agents: &Vec<TrustedAgent>, device_id: &str) -> (r: Option<usize>)
    ensures
        r matches Some(i) ==> i < agents@.len() && agents@[i as int].device_id@ == device_id@,
        r is None ==> forall|j: int| 0 <= j < agents@.len() ==> agents@[j].device_id@ != device_id@,
{
    let mut i: usize = 0;
    while i < agents.len()
        invariant
            i <= agents@.len(),
            forall|j: int| 0 <= j < i ==> agents@[j].device_id@ != device_id@,
        decreases agents@.len() - i,
    {
        if agents[i].device_id.as_str().eq(device_id) {
            return Some(i);
        }
        i += 1;
    }
    None
}

impl AgentStore {
    #[verifier::type_invariant]
    spec fn inv(self) -> bool {
        keys_unique(self.trusted_hosts@, host_key())
    }

    pub fn new() -> (r: Self)
        ensures
            r@ == Map::<Seq<char>, TrustedHost>::empty(),
    {
        AgentStore { trusted_hosts: Vec::new() }
    }

    /// Record `host`, replacing any record with the same host id.
    pub fn add_host(&mut self, host: TrustedHost)
        ensures
            final(self)@ == old(self)@.insert(host.host_id@, host),
    {
        proof {
            use_type_invariant(&*self);
        }
        let found = host_position(&self.trusted_hosts, host.host_id.as_str());
        let mut hosts: Vec<TrustedHost> = Vec::new();
        std::mem::swap(&mut hosts, &mut self.trusted_hosts);
        let ghost orig = hosts@;
        match found {
            Some(i) => {
                proof {
                    lemma_keyed_set(orig, host_key(), i as int, host);
                }
                hosts.set(i, host);
            },
            None => {
                proof {
                    lemma_keyed_push(orig, host_key(), host);
                }
                hosts.push(host);
            },
        }
        self.trusted_hosts = hosts;
    }

    /// Forget the record of `host_id`, if any.
    pub fn remove_host(&mut self, host_id: &str)
        ensures
            final(self)@ == old(self)@.remove(host_id@),
    {
        proof {
            use_type_invariant(&*self);
        }
        let found = host_position(&self.trusted_hosts, host_id);
        let mut hosts: Vec<TrustedHost> = Vec::new();
        std::mem::swap(&mut hosts, &mut self.trusted_hosts);
        let ghost orig = hosts@;
        match found {
            Some(i) => {
                proof {
                    lemma_keyed_remove(orig, host_key(), i as int);
                }
                hosts.remove(i);
            },
            None => {
                proof {
                    lemma_keyed_absent(orig, host_key(), host_id@);
                    assert(keyed_map(orig, host_key()).remove(host_id@) =~= keyed_map(orig, host_key()));
                }
            },
        }
        self.trusted_hosts = hosts;
    }

    /// The record of `host_id`, if any.
    pub fn get_host(&self, host_id: &str) -> (r: Option<&TrustedHost>)
        ensures
            r is Some <==> self@.contains_key(host_id@),
            r matches Some(h) ==> *h == self@[host_id@],
    {
        proof {
            use_type_invariant(self);
        }
        match host_position(&self.trusted_hosts, host_id) {
            Some(i) => {
                proof {
                    lemma_keyed_at(self.trusted_hosts@, host_key(), i as int);
                }
                Some(&self.trusted_hosts[i])
            },
            None => {
                proof {
                    lemma_keyed_absent(self.trusted_hosts@, host_key(), host_id@);
                }
                None
            },
        }
    }

    /// Remember `addr` as the last-known address of `host_id`, if it is known.
    pub fn update_last_addr(&mut self, host_id: &str, addr: String)
        ensures
            old(self)@.contains_key(host_id@) ==> final(self)@ == old(self)@.insert(
                host_id@,
                TrustedHost { last_addr: Some(addr), ..old(self)@[host_id@] },
            ),
            !old(self)@.contains_key(host_id@) ==> final(self)@ == old(self)@,
    {
        proof {
            use_type_invariant(&*self);
        }
        let found = host_position(&self.trusted_hosts, host_id);
        let mut hosts: Vec<TrustedHost> = Vec::new();
        std::mem::swap(&mut hosts, &mut self.trusted_hosts);
        let ghost orig = hosts@;
        match found {
            Some(i) => {
                let old_h = hosts.remove(i);
                let h = TrustedHost { last_addr: Some(addr), ..old_h };
                hosts.insert(i, h);
                proof {
                    lemma_keyed_at(orig, host_key(), i as int);
                    assert(hosts@ =~= orig.update(i as int, h));
                    lemma_keyed_set(orig, host_key(), i as int, h);
                }
            },
            None => {
                proof {
                    lemma_keyed_absent(orig, host_key(), host_id@);
                }
            },
        }
        self.trusted_hosts = hosts;
    }

    /// All records, one per host id, in no particular order.
    pub fn all_hosts(&self) -> (r: &[TrustedHost])
        ensures
            keyed_map(r@, host_key()) == self@,
            keys_unique(r@, host_key()),
    {
        proof {
            use_type_invariant(self);
        }
        self.trusted_hosts.as_slice()
    }
}

impl HostStore {
    #[verifier::type_invariant]
    spec fn inv(self) -> bool {
        keys_unique(self.trusted_agents@, agent_key())
    }

    pub fn new() -> (r: Self)
        ensures
            r@ == Map::<Seq<char>, TrustedAgent>::empty(),
    {
        HostStore { trusted_agents: Vec::new() }
    }

    /// Record `agent`, replacing any record with the same device id.
    pub fn add_agent(&mut self, agent: TrustedAgent)
        ensures
            final(self)@ == old(self)@.insert(agent.device_id@, agent),
    {
        proof {
            use_type_invariant(&*self);
        }
        let found = agent_position(&self.trusted_agents, agent.device_id.as_str());
        let mut agents: Vec<TrustedAgent> = Vec::new();
        std::mem::swap(&mut agents, &mut self.trusted_agents);
        let ghost orig = agents@;
        match found {
            Some(i) => {
                proof {
                    lemma_keyed_set(orig, agent_key(), i as int, agent);
                }
                agents.set(i, agent);
            },
            None => {
                proof {
                    lemma_keyed_push(orig, agent_key(), agent);
                }
                agents.push(agent);
            },
        }
        self.trusted_agents = agents;
    }

    /// Forget the record of `device_id`, if any.
    pub fn remove_agent(&mut self, device_id: &str)
        ensures
            final(self)@ == old(self)@.remove(device_id@),
    {
        proof {
            use_type_invariant(&*self);
        }
        let found = agent_position(&self.trusted_agents, device_id);
        let mut agents: Vec<TrustedAgent> = Vec::new();
        std::mem::swap(&mut agents, &mut self.trusted_agents);
        let ghost orig = agents@;
        match found {
            Some(i) => {
                proof {
                    lemma_keyed_remove(orig, agent_key(), i as int);
                }
                agents.remove(i);
            },
            None => {
                proof {
                    lemma_keyed_absent(orig, agent_key(), device_id@);
                    assert(keyed_map(orig, agent_key()).remove(device_id@) =~= keyed_map(orig, agent_key()));
                }
            },
        }
        self.trusted_agents = agents;
    }

    /// The record of `device_id`, if any.
    pub fn get_agent(&self, device_id: &str) -> (r: Option<&TrustedAgent>)
        ensures
            r is Some <==> self@.contains_key(device_id@),
            r matches Some(a) ==> *a == self@[device_id@] && a.device_id@ == device_id@,
    {
        proof {
            use_type_invariant(self);
        }
        match agent_position(&self.trusted_agents, device_id) {
            Some(i) => {
                proof {
                    lemma_keyed_at(self.trusted_agents@, agent_key(), i as int);
                }
                Some(&self.trusted_agents[i])
            },
            None => {
                proof {
                    lemma_keyed_absent(self.trusted_agents@, agent_key(), device_id@);
                }
                None
            },
        }
    }

    /// Whether `device_id` has been paired.
    pub fn is_trusted(&self, device_id: &str) -> (r: bool)
        ensures
            r == self@.contains_key(device_id@),
    {
        proof {
            use_type_invariant(self);
        }
        match agent_position(&self.trusted_agents, device_id) {
            Some(i) => {
                proof {
                    lemma_keyed_at(self.trusted_agents@, agent_key(), i as int);
                }
                true
            },
            None => {
                proof {
                    lemma_keyed_absent(self.trusted_agents@, agent_key(), device_id@);
                }
                false
            },
        }
    }

    /// All records, one per device id, in no particular order.
    pub fn all_agents(&self) -> (r: &[TrustedAgent])
        ensures
            keyed_map(r@, agent_key()) == self@,
            keys_unique(r@, agent_key()),
    {
        proof {
            use_type_invariant(self);
        }
        self.trusted_agents.as_slice()
    }
}

impl Default for AgentStore {
    fn default() -> (r: Self)
        ensures
            r@ == Map::<Seq<char>, TrustedHost>::empty(),
    {
        AgentStore::new()
    }
}

impl Default for HostStore {
    fn default() -> (r: Self)
        ensures
            r@ == Map::<Seq<char>, TrustedAgent>::empty(),
    {
        HostStore::new()
    }
}

/// A device becomes trusted by being added, and its record reads back as
/// written.
pub proof fn lemma_add_then_get(store: Map<Seq<char>, TrustedAgent>, agent: TrustedAgent)
    ensures
        store.insert(agent.device_id@, agent).contains_key(agent.device_id@),
        store.insert(agent.device_id@, agent)[agent.device_id@] == agent,
{
}

/// A removed device is no longer trusted; other devices are unaffected.
pub proof fn lemma_remove_then_untrusted(store: Map<Seq<char>, TrustedAgent>, id: Seq<char>, other: Seq<char>)
    requires
        other != id,
    ensures
        !store.remove(id).contains_key(id),
        store.remove(id).contains_key(other) == store.contains_key(other),
        store.contains_key(other) ==> store.remove(id)[other] == store[other],
{
}


/// Every record of a host store is kept under its own device id.
pub proof fn lemma_agent_keyed_by_id(store: HostStore, id: Seq<char>)
    requires
        store@.contains_key(id),
    ensures
        store@[id].device_id@ == id,
{
    lemma_keyed_own_key(store.trusted_agents@, agent_key(), id);
}

/// A change to a host store: recording an agent (`Some`) or removing the
/// device `.0` (`None`).
pub type AgentChange = (Seq<char>, Option<TrustedAgent>);

/// The records after `change`, as `add_agent` and `remove_agent` make them.
pub open spec fn apply_change(m: Map<Seq<char>, TrustedAgent>, change: AgentChange) -> Map<Seq<char>, TrustedAgent> {
    match change.1 {
        Some(a) => m.insert(a.device_id@, a),
        None => m.remove(change.0),
    }
}

/// The records after `changes`, in order, from `m`.
pub open spec fn apply_changes(m: Map<Seq<char>, TrustedAgent>, changes: Seq<AgentChange>) -> Map<Seq<char>, TrustedAgent>
    decreases changes.len(),
{
    if changes.len() == 0 {
        m
    } else {
        apply_change(apply_changes(m, changes.drop_last()), changes.last())
    }
}

/// Some change records device `id`, and no later change removes it.
pub open spec fn added_and_kept(changes: Seq<AgentChange>, id: Seq<char>) -> bool {
    exists|i: int| #![trigger changes[i]] 0 <= i < changes.len() && (changes[i].1 matches Some(a) && a.device_id@ == id)
        && forall|j: int| i < j < changes.len() ==> !(#[trigger] changes[j].1 is None && changes[j].0 == id)
}

/// The trusted set follows the history of changes: starting from an empty
/// store, a device is trusted exactly when some change recorded it and no later
/// change removed it.
pub proof fn lemma_trust_follows_history(changes: Seq<AgentChange>, id: Seq<char>)
    ensures
        apply_changes(Map::empty(), changes).contains_key(id) <==> added_and_kept(changes, id),
    decreases changes.len(),
{
    if changes.len() > 0 {
        let t = changes.drop_last();
        let c = changes.last();
        let n = changes.len() - 1;
        lemma_trust_follows_history(t, id);
        assert(changes[n] == c);
        if added_and_kept(t, id) {
            let i = choose|i: int| #![trigger t[i]] 0 <= i < t.len() && (t[i].1 matches Some(a) && a.device_id@ == id)
                && forall|j: int| i < j < t.len() ==> !(#[trigger] t[j].1 is None && t[j].0 == id);
            assert(changes[i] == t[i]);
            if !(c.1 is None && c.0 == id) {
                assert forall|j: int| i < j < changes.len() implies !(#[trigger] changes[j].1 is None && changes[j].0 == id) by {
                    if j < n {
                        assert(changes[j] == t[j]);
                    }
                }
            }
        }
        if added_and_kept(changes, id) {
            let i = choose|i: int| #![trigger changes[i]] 0 <= i < changes.len() && (changes[i].1 matches Some(a) && a.device_id@ == id)
                && forall|j: int| i < j < changes.len() ==> !(#[trigger] changes[j].1 is None && changes[j].0 == id);
            if i < n {
                assert(t[i] == changes[i]);
                assert forall|j: int| i < j < t.len() implies !(#[trigger] t[j].1 is None && t[j].0 == id) by {
                    assert(t[j] == changes[j]);
                }
            }
        }
        if c.1 matches Some(a) && a.device_id@ == id {
            assert(added_and_kept(changes, id)) by {
                assert(changes[n].1 matches Some(a) && a.device_id@ == id);
            }
        }
    }
}

} // verus!
