use contixis::codec::{compress, decompress, CodecError};
use contixis::handshake::{
    agent_hello, agent_on_pairing_outcome, agent_on_reply, agent_on_session_ready, pairing_request, AgentFrame, AgentStep,
    HandshakeError, HandshakeEvent, HostFrame, HostOutcome, HostSession, HostStep, ScreenDesc, NONCE_LEN,
};
use contixis::pairing::{PairingError, PairingManager};
use contixis::pki::{host_id_of, pem_to_der, CertificateAuthority, DeviceIdentity};
use contixis::proto::MsgType;
use contixis::session::SessionState;
use contixis::store::{AgentStore, HostStore, TrustedAgent};

fn screen() -> ScreenDesc {
    ScreenDesc { id: "screen0".to_string(), width_px: 1920, height_px: 1080, dpi_scale_bits: 1.0f32.to_bits(), is_primary: true, offset_x: 0, offset_y: 0 }
}

fn hello(id: &str, name: &str) -> AgentFrame {
    AgentFrame::Hello(agent_hello(id.to_string(), name.to_string(), "linux".to_string(), vec![screen()]))
}

#[test]
fn saved_ca_keeps_its_host_id() {
    let ca = CertificateAuthority::generate().unwrap();
    let pem = ca.cert_pem();
    assert_eq!(ca.cert_pem(), pem);
    let again = CertificateAuthority::load(&pem, &ca.key_pem()).unwrap();
    assert_eq!(host_id_of(again.cert_der()), host_id_of(ca.cert_der()));
    assert_eq!(host_id_of(ca.cert_der()).len(), 16);
}

#[test]
fn ca_and_identity_certificates() {
    let ca = CertificateAuthority::generate().unwrap();
    assert!(!ca.cert_der().is_empty());
    let pem = ca.cert_pem();
    assert!(pem.starts_with("-----BEGIN CERTIFICATE-----"));
    let again = CertificateAuthority::load(&pem, &ca.key_pem()).unwrap();
    assert_eq!(again.cert_der(), ca.cert_der());
    let mut id = DeviceIdentity::generate().unwrap();
    assert_eq!(id.device_id.len(), 36);
    assert!(!id.has_cert());
    let csr = id.csr_pem().unwrap();
    assert!(csr.starts_with("-----BEGIN CERTIFICATE REQUEST-----"));
    let der = pem_to_der(&csr);
    assert!(!der.is_empty());
    let signed = ca.sign_csr(&csr, &id.device_id).unwrap();
    assert!(!signed.is_empty());
    let own = id.connection_cert_der().unwrap();
    assert!(!own.is_empty());
    id.install_cert(signed.clone());
    assert!(id.has_cert());
    assert_eq!(id.cert_der(), Some(&signed[..]));
    assert_eq!(id.connection_cert_der().unwrap(), signed);
    let restored = DeviceIdentity::from_saved(&format!("  {}\n", id.device_id), &id.private_key_pem(), Some(signed.clone())).unwrap();
    assert_eq!(restored.device_id, id.device_id);
    assert_eq!(restored.cert_der(), Some(&signed[..]));
    assert!(ca.sign_csr("not a pem", "x").is_err());
    assert!(pem_to_der("garbage").is_empty());
}

#[test]
fn trusted_device_gets_session_at_once() {
    let ca = CertificateAuthority::generate().unwrap();
    let mut store = HostStore::new();
    store.add_agent(TrustedAgent { device_id: "dev".to_string(), cert_der: vec![1], display_name: None });
    let mut pairing = PairingManager::new();
    let (session, events, step) = HostSession::on_hello(hello("dev", "laptop"), &store, &mut pairing, &ca).unwrap();
    assert_eq!(session.fsm.state, SessionState::Established);
    assert_eq!(events.len(), 1);
    match &events[0] {
        HandshakeEvent::Connected { device_id, display_name, os_type } => {
            assert_eq!((device_id.as_str(), display_name.as_str(), os_type.as_str()), ("dev", "laptop", "linux"));
        }
        _ => panic!("expected Connected"),
    }
    match step {
        HostStep::Ready { session_id, ca_cert_der } => {
            assert_eq!(session_id.len(), 36);
            assert_eq!(ca_cert_der, ca.cert_der());
        }
        _ => panic!("expected Ready"),
    }
    let info = session.into_info();
    assert_eq!(info.screens.len(), 1);
    assert!(pairing.take_session("dev").is_none());
}

#[test]
fn full_pairing_between_host_and_agent() {
    let ca = CertificateAuthority::generate().unwrap();
    let mut host_store = HostStore::new();
    let mut pairing = PairingManager::new();
    let mut identity = DeviceIdentity::generate().unwrap();
    let device_id = identity.device_id.clone();
    let (mut session, events, step) = HostSession::on_hello(hello(&device_id, "laptop"), &host_store, &mut pairing, &ca).unwrap();
    assert_eq!(session.fsm.state, SessionState::PairingPending);
    let (pin, nonce) = match step {
        HostStep::Pair { pin, nonce } => (pin, nonce),
        _ => panic!("expected Pair"),
    };
    assert_eq!(nonce.len(), NONCE_LEN);
    assert_eq!(pin.len(), 6);
    assert!(pin.chars().all(|c| c.is_ascii_digit()));
    match &events[1] {
        HandshakeEvent::PairingPin { device_id: d, pin: shown } => {
            assert_eq!(d, &device_id);
            assert_eq!(shown, &pin);
        }
        _ => panic!("expected PairingPin"),
    }
    // Agent side.
    let step = agent_on_reply(HostFrame::PairingRequired { nonce: nonce.clone() }).unwrap();
    let nonce_seen = match step {
        AgentStep::NeedPin { nonce } => nonce,
        _ => panic!("expected NeedPin"),
    };
    let (csr, mac) = pairing_request(&identity, &pin, &nonce_seen).unwrap();
    // Host side.
    let outcome = session.on_pairing_request(AgentFrame::PairingRequest { csr, pin_mac: mac }, &mut pairing, &ca).unwrap();
    let (agent_cert, ca_der) = match outcome {
        HostOutcome::Accepted { agent_cert_der, ca_cert_der, session_id } => {
            assert_eq!(session_id.len(), 36);
            (agent_cert_der, ca_cert_der)
        }
        HostOutcome::Rejected { reason, .. } => panic!("rejected: {}", reason),
    };
    // Nothing is recorded until the success frame has gone out.
    assert_eq!(session.fsm.state, SessionState::PairingPending);
    assert!(!host_store.is_trusted(&device_id));
    session.record_pairing(&mut host_store, agent_cert.clone());
    assert_eq!(session.fsm.state, SessionState::Established);
    assert!(host_store.is_trusted(&device_id));
    assert_eq!(host_store.get_agent(&device_id).unwrap().display_name.as_deref(), Some("laptop"));
    assert_eq!(host_store.get_agent(&device_id).unwrap().cert_der, agent_cert);
    // Agent records the host.
    let mut agent_store = AgentStore::new();
    agent_on_pairing_outcome(HostFrame::PairingSuccess { agent_cert_der: agent_cert.clone(), ca_cert_der: ca_der.clone() }, &mut identity, &mut agent_store, "192.168.1.10:7443".to_string()).unwrap();
    assert_eq!(identity.cert_der(), Some(&agent_cert[..]));
    let host_id = host_id_of(&ca_der);
    let h = agent_store.get_host(&host_id).unwrap();
    assert_eq!(h.ca_der, ca_der);
    assert_eq!(h.last_addr.as_deref(), Some("192.168.1.10:7443"));
    assert!(agent_on_session_ready(&HostFrame::SessionReady { session_id: "s".to_string() }).is_ok());
}

#[test]
fn wrong_pin_is_rejected_and_device_stays_untrusted() {
    let ca = CertificateAuthority::generate().unwrap();
    let store = HostStore::new();
    let mut pairing = PairingManager::new();
    let identity = DeviceIdentity::generate().unwrap();
    let (mut session, _, step) = HostSession::on_hello(hello(&identity.device_id, ""), &store, &mut pairing, &ca).unwrap();
    let (pin, nonce) = match step {
        HostStep::Pair { pin, nonce } => (pin, nonce),
        _ => panic!("expected Pair"),
    };
    let wrong = if pin == "111111" { "222222" } else { "111111" };
    let (csr, mac) = pairing_request(&identity, wrong, &nonce).unwrap();
    let outcome = session.on_pairing_request(AgentFrame::PairingRequest { csr, pin_mac: mac }, &mut pairing, &ca).unwrap();
    match outcome {
        HostOutcome::Rejected { reason, error } => {
            assert_eq!(error, PairingError::MacMismatch);
            assert_eq!(reason, "pairing MAC verification failed");
        }
        _ => panic!("expected rejection"),
    }
    assert_eq!(session.fsm.state, SessionState::PairingRequired);
    assert!(!store.is_trusted(&identity.device_id));
    assert!(pairing.take_session(&identity.device_id).is_none());
}

#[test]
fn unexpected_frames_end_the_handshake() {
    let ca = CertificateAuthority::generate().unwrap();
    let store = HostStore::new();
    let mut pairing = PairingManager::new();
    match HostSession::on_hello(AgentFrame::Other(MsgType::Heartbeat), &store, &mut pairing, &ca) {
        Err(HandshakeError::Unexpected(t)) => assert_eq!(t, MsgType::Heartbeat),
        _ => panic!("expected Unexpected"),
    }
    match HostSession::on_hello(AgentFrame::PairingRequest { csr: vec![], pin_mac: vec![] }, &store, &mut pairing, &ca) {
        Err(HandshakeError::Unexpected(t)) => assert_eq!(t, MsgType::PairingRequest),
        _ => panic!("expected Unexpected"),
    }
    match agent_on_reply(HostFrame::PairingFailed { reason: "x".to_string() }) {
        Err(HandshakeError::Unexpected(t)) => assert_eq!(t, MsgType::PairingFailed),
        _ => panic!("expected Unexpected"),
    }
    assert!(matches!(agent_on_reply(HostFrame::SessionReady { session_id: "s".to_string() }), Ok(AgentStep::Established)));
    match agent_on_session_ready(&HostFrame::Other(MsgType::Heartbeat)) {
        Err(HandshakeError::Unexpected(t)) => assert_eq!(t, MsgType::Heartbeat),
        _ => panic!("expected Unexpected"),
    }
    let mut identity = DeviceIdentity::generate().unwrap();
    let mut agent_store = AgentStore::new();
    match agent_on_pairing_outcome(HostFrame::PairingFailed { reason: "bad pin".to_string() }, &mut identity, &mut agent_store, "a:1".to_string()) {
        Err(HandshakeError::PairingRefused(r)) => assert_eq!(r, "bad pin"),
        _ => panic!("expected PairingRefused"),
    }
    assert!(!identity.has_cert());
}

#[test]
fn pairing_request_without_session_is_refused() {
    let ca = CertificateAuthority::generate().unwrap();
    let store = HostStore::new();
    let mut pairing = PairingManager::new();
    let (mut session, _, _) = HostSession::on_hello(hello("dev", "n"), &store, &mut pairing, &ca).unwrap();
    pairing.take_session("dev");
    match session.on_pairing_request(AgentFrame::PairingRequest { csr: vec![1], pin_mac: vec![2] }, &mut pairing, &ca).unwrap() {
        HostOutcome::Rejected { reason, error } => {
            assert_eq!(error, PairingError::NoSession);
            assert_eq!(reason, "no active pairing session for device dev");
        }
        _ => panic!("expected rejection"),
    }
}

#[test]
fn zstd_round_trip() {
    let data: Vec<u8> = (0..10_000u32).map(|i| (i % 251) as u8).collect();
    let z = compress(&data, 3).unwrap();
    assert!(z.len() < data.len());
    assert_eq!(decompress(&z).unwrap(), data);
    assert_eq!(decompress(&compress(b"", 0).unwrap()).unwrap(), Vec::<u8>::new());
    assert_eq!(decompress(b"not zstd"), Err(CodecError::Decompress));
}
