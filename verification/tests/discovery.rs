use contixis::agent_state::{accepts_clipboard, agent_info, check_can_connect, discovered_hosts, known_addrs, paired_hosts, ClipboardPoller, ConnState};
use contixis::discovery::{host_fqdn, instance_name, instance_of, resolved_to_hosts, service_fullname, DiscoveredEntry, DiscoveredHosts, SERVICE_TYPE};
use contixis::store::{AgentStore, TrustedHost};

#[test]
fn instance_names() {
    assert_eq!(instance_name("30820190abcdef01"), "contixis-30820190");
    assert_eq!(instance_name("abc"), "contixis-abc");
    assert_eq!(service_fullname("30820190abcdef01"), "contixis-30820190._contixis._tcp.local.");
    assert_eq!(SERVICE_TYPE, "_contixis._tcp.local.");
    assert_eq!(host_fqdn("box"), "box.local.");
}

#[test]
fn instance_part_of_full_name() {
    assert_eq!(instance_of("contixis-30820190._contixis._tcp.local."), "contixis-30820190");
    assert_eq!(instance_of("plain"), "plain");
    assert_eq!(instance_of(".x"), "");
}

#[test]
fn resolved_service_gives_one_host_per_address() {
    let addrs = vec!["192.168.1.10:7443".to_string(), "[fe80::1]:7443".to_string()];
    let hs = resolved_to_hosts(Some("30820190abcdef01"), "contixis-30820190._contixis._tcp.local.", &addrs);
    assert_eq!(hs.len(), 2);
    assert_eq!(hs[1].addr, "[fe80::1]:7443");
    assert_eq!(hs[0].host_id, "30820190abcdef01");
    assert_eq!(hs[0].instance_name, "contixis-30820190._contixis._tcp.local.");
    let hs = resolved_to_hosts(None, "x", &addrs[..1]);
    assert_eq!(hs[0].host_id, "unknown");
}

fn entry(id: &str, inst: &str) -> DiscoveredEntry {
    DiscoveredEntry { host_id: id.to_string(), addr: "10.0.0.1:7443".to_string(), instance: inst.to_string() }
}

#[test]
fn discovered_hosts_come_and_go() {
    let mut d = DiscoveredHosts::new();
    d.found(entry("h1", "contixis-h1._contixis._tcp.local."));
    d.found(entry("h2", "contixis-h2._contixis._tcp.local."));
    assert!(d.contains("h1"));
    assert_eq!(d.lost("contixis-h1"), Some("h1".to_string()));
    assert!(!d.contains("h1"));
    assert_eq!(d.lost("contixis-h1"), None);
    assert_eq!(d.entries().len(), 1);
    d.found(entry("h2", "other"));
    assert_eq!(d.entries().len(), 1);
    assert_eq!(d.entries()[0].instance, "other");
}

fn host(id: &str, addr: Option<&str>) -> TrustedHost {
    TrustedHost { host_id: id.to_string(), ca_der: vec![], last_addr: addr.map(|a| a.to_string()), display_name: Some("Desk".to_string()) }
}

#[test]
fn host_listings_for_the_agent_interface() {
    let mut store = AgentStore::new();
    store.add_host(host("h1", Some("10.0.0.1:7443")));
    store.add_host(host("h2", None));
    let mut d = DiscoveredHosts::new();
    d.found(entry("h2", "i2"));
    d.found(entry("h3", "i3"));
    let paired = paired_hosts(&store, &d);
    assert_eq!(paired.len(), 2);
    for p in &paired {
        assert_eq!(p.is_online, p.host_id == "h2");
        assert_eq!(p.display_name.as_deref(), Some("Desk"));
    }
    let seen = discovered_hosts(&d, &store);
    assert_eq!(seen.len(), 2);
    for s in &seen {
        assert_eq!(s.is_paired, s.host_id == "h2");
        assert_eq!(s.addr, "10.0.0.1:7443");
    }
    assert_eq!(known_addrs(&store), vec!["10.0.0.1:7443".to_string()]);
}

#[test]
fn agent_info_per_connection_state() {
    let i = agent_info("me", &ConnState::Idle);
    assert_eq!((i.device_id.as_str(), i.conn_status.as_str(), i.conn_host_id.is_none(), i.conn_addr.is_none()), ("me", "idle", true, true));
    let i = agent_info("me", &ConnState::Connecting { addr: "a:1".to_string() });
    assert_eq!((i.conn_status.as_str(), i.conn_addr.as_deref()), ("connecting", Some("a:1")));
    let i = agent_info("me", &ConnState::PairingRequired { addr: "a:1".to_string() });
    assert_eq!(i.conn_status, "pairing");
    let i = agent_info("me", &ConnState::Connected { addr: "a:1".to_string(), host_id: "h".to_string() });
    assert_eq!((i.conn_status.as_str(), i.conn_host_id.as_deref(), i.conn_addr.as_deref()), ("connected", Some("h"), Some("a:1")));
    assert!(check_can_connect(&ConnState::default()).is_ok());
    assert_eq!(check_can_connect(&ConnState::Connecting { addr: "a:1".to_string() }).unwrap_err(), "already connecting or connected — disconnect first");
}

#[test]
fn clipboard_poller_sends_only_new_local_text() {
    let mut p = ClipboardPoller::new();
    assert_eq!(p.poll("", None), None);
    assert_eq!(p.poll("hello", None), Some((1, b"hello".to_vec())));
    assert_eq!(p.poll("hello", None), None);
    assert_eq!(p.poll("from host", Some("from host")), None);
    assert_eq!(p.poll("mine", Some("from host")), Some((2, b"mine".to_vec())));
    assert_eq!(p.seq, 2);
    assert!(accepts_clipboard("text/plain"));
    assert!(!accepts_clipboard("image/png"));
}

#[test]
fn names_fall_back_when_the_system_has_none() {
    assert_eq!(contixis::discovery::name_or(None, "localhost"), "localhost");
    assert_eq!(contixis::discovery::name_or(Some("box".to_string()), "localhost"), "box");
    let _ = contixis::discovery::local_hostname();
    let _ = contixis::handshake::hostname();
}
