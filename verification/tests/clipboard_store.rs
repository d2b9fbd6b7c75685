use contixis::clipboard::ClipboardManager;
use contixis::store::{AgentStore, HostStore, TrustedAgent, TrustedHost};

#[test]
fn clipboard_assigns_increasing_sequences() {
    let mut cb = ClipboardManager::new();
    assert_eq!(cb.current_seq(), 0);
    assert_eq!(cb.notify("a", "text/plain".to_string(), b"one".to_vec()), Some(1));
    assert_eq!(cb.notify("b", "text/plain".to_string(), b"two".to_vec()), Some(2));
    assert_eq!(cb.current_seq(), 2);
}

#[test]
fn clipboard_ignores_repeated_content() {
    let mut cb = ClipboardManager::new();
    assert_eq!(cb.notify("a", "text/plain".to_string(), b"same".to_vec()), Some(1));
    assert_eq!(cb.notify("b", "text/plain".to_string(), b"same".to_vec()), None);
    assert_eq!(cb.current_seq(), 1);
    // Same bytes with another type are new content.
    assert_eq!(cb.notify("b", "text/html".to_string(), b"same".to_vec()), Some(2));
}

#[test]
fn clipboard_ack_suppresses_echo() {
    let mut cb = ClipboardManager::new();
    assert!(cb.get_for_device("x").is_none());
    cb.notify("a", "text/plain".to_string(), b"hello".to_vec());
    let e = cb.get_for_device("b").unwrap();
    assert_eq!((e.sequence, e.source_device.as_str(), e.mime_type.as_str(), e.data.as_slice()), (1, "a", "text/plain", &b"hello"[..]));
    cb.ack("b", 1);
    assert!(cb.get_for_device("b").is_none());
    assert!(cb.get_for_device("c").is_some());
    cb.notify("c", "text/plain".to_string(), b"again".to_vec());
    assert_eq!(cb.get_for_device("b").unwrap().sequence, 2);
    let now = cb.current_seq();
    cb.ack("b", now);
    assert!(cb.get_for_device("b").is_none());
}

fn host(id: &str) -> TrustedHost {
    TrustedHost { host_id: id.to_string(), ca_der: vec![1, 2, 3], last_addr: None, display_name: None }
}

#[test]
fn agent_store_add_get_remove() {
    let mut s = AgentStore::new();
    s.add_host(host("h1"));
    s.add_host(host("h2"));
    assert_eq!(s.get_host("h1").unwrap().ca_der, vec![1, 2, 3]);
    let mut h = host("h1");
    h.ca_der = vec![9];
    s.add_host(h);
    assert_eq!(s.get_host("h1").unwrap().ca_der, vec![9]);
    assert_eq!(s.all_hosts().len(), 2);
    s.remove_host("h1");
    assert!(s.get_host("h1").is_none());
    assert_eq!(s.all_hosts().len(), 1);
    s.remove_host("missing");
    assert_eq!(s.all_hosts().len(), 1);
}

#[test]
fn agent_store_updates_last_address_of_known_hosts_only() {
    let mut s = AgentStore::new();
    s.add_host(host("h1"));
    s.update_last_addr("h1", "10.0.0.2:7443".to_string());
    assert_eq!(s.get_host("h1").unwrap().last_addr.as_deref(), Some("10.0.0.2:7443"));
    s.update_last_addr("nobody", "10.0.0.3:7443".to_string());
    assert!(s.get_host("nobody").is_none());
}

#[test]
fn host_store_trust() {
    let mut s = HostStore::new();
    assert!(!s.is_trusted("dev"));
    s.add_agent(TrustedAgent { device_id: "dev".to_string(), cert_der: vec![7], display_name: Some("laptop".to_string()) });
    assert!(s.is_trusted("dev"));
    assert_eq!(s.get_agent("dev").unwrap().display_name.as_deref(), Some("laptop"));
    assert_eq!(s.all_agents().len(), 1);
    s.remove_agent("dev");
    assert!(!s.is_trusted("dev"));
    assert!(s.get_agent("dev").is_none());
}
