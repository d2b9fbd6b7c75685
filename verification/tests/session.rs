use contixis::session::{SessionEvent, SessionFsm, SessionState};

#[test]
fn new_session_starts_connected() {
    let fsm = SessionFsm::new("dev".to_string());
    assert_eq!(fsm.state, SessionState::Connected);
    assert_eq!(fsm.device_id, "dev");
    assert!(fsm.established_at.is_none());
    assert!(!fsm.is_established());
    assert!(!fsm.is_closed());
}

#[test]
fn trusted_device_goes_straight_to_established() {
    let mut fsm = SessionFsm::new("dev".to_string());
    assert_eq!(fsm.apply(SessionEvent::SessionReady), SessionState::Established);
    assert!(fsm.is_established());
    assert!(fsm.established_at.is_some());
}

#[test]
fn pairing_path_reaches_established() {
    let mut fsm = SessionFsm::new("dev".to_string());
    assert_eq!(fsm.apply(SessionEvent::NeedsPairing), SessionState::PairingRequired);
    assert_eq!(fsm.apply(SessionEvent::PairingStarted), SessionState::PairingPending);
    assert_eq!(fsm.apply(SessionEvent::PairingSucceeded), SessionState::Established);
    assert!(fsm.established_at.is_some());
}

#[test]
fn failed_pairing_returns_to_pairing_required() {
    let mut fsm = SessionFsm::new("dev".to_string());
    fsm.apply(SessionEvent::NeedsPairing);
    fsm.apply(SessionEvent::PairingStarted);
    assert_eq!(fsm.apply(SessionEvent::PairingFailed), SessionState::PairingRequired);
    assert!(fsm.established_at.is_none());
}

#[test]
fn events_that_do_not_apply_leave_the_state() {
    let mut fsm = SessionFsm::new("dev".to_string());
    assert_eq!(fsm.apply(SessionEvent::PairingSucceeded), SessionState::Connected);
    assert_eq!(fsm.apply(SessionEvent::HandshakeReceived { device_id: "dev".to_string(), version: 1 }), SessionState::Connected);
    assert_eq!(fsm.apply(SessionEvent::TerminateRequested), SessionState::Connected);
}

#[test]
fn transport_close_closes_from_any_state_and_closed_is_terminal() {
    let mut fsm = SessionFsm::new("dev".to_string());
    fsm.apply(SessionEvent::SessionReady);
    assert_eq!(fsm.apply(SessionEvent::TransportClosed), SessionState::Closed);
    assert!(fsm.is_closed());
    assert_eq!(fsm.apply(SessionEvent::SessionReady), SessionState::Closed);
    assert_eq!(fsm.apply(SessionEvent::NeedsPairing), SessionState::Closed);
}

#[test]
fn established_session_terminates_on_request() {
    let mut fsm = SessionFsm::new("dev".to_string());
    fsm.apply(SessionEvent::SessionReady);
    assert_eq!(fsm.apply(SessionEvent::TerminateRequested), SessionState::Terminating);
}
