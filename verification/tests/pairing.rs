use contixis::handshake::bytes_to_pem;
use contixis::pairing::{compute_pin_mac, generate_pin, pin_from_number, PairingError, PairingManager, PairingSession, PIN_LENGTH};
use contixis::pki::host_id_of;

const JEFE_HMAC: &str = "5bdcc146bf60754e6a042426089575c75a003f089d2739839dec58b964ec3843";

#[test]
fn pin_is_six_zero_padded_digits() {
    assert_eq!(pin_from_number(0), "000000");
    assert_eq!(pin_from_number(42), "000042");
    assert_eq!(pin_from_number(999_999), "999999");
    for _ in 0..50 {
        let p = generate_pin();
        assert_eq!(p.len(), PIN_LENGTH);
        assert!(p.chars().all(|c| c.is_ascii_digit()));
    }
}

#[test]
fn hmac_matches_rfc4231_vector() {
    let s = PairingSession::start("dev".to_string(), "Jefe".to_string());
    assert_eq!(s.compute_hmac("what do ya want for nothing?"), JEFE_HMAC);
    assert!(s.verify_hmac("what do ya want for nothing?", JEFE_HMAC));
    assert!(!s.verify_hmac("what do ya want for nothing!", JEFE_HMAC));
    let mac = compute_pin_mac("Jefe", b"what do ya want ", b"for nothing?");
    assert_eq!(s.compute_hmac_bytes(b"what do ya want for nothing?"), mac);
    assert!(s.verify_mac_bytes(b"what do ya want ", b"for nothing?", &mac));
    assert!(!s.verify_mac_bytes(b"what do ya want", b"for nothing?", &mac));
    assert_eq!(mac.len(), 32);
    assert!(!s.verify_mac_bytes(b"what do ya want ", b"for nothing?", &mac[..31]));
}

#[test]
fn fresh_session_is_not_expired() {
    let s = PairingSession::start("dev".to_string(), "123456".to_string());
    assert!(!s.is_expired());
}

#[test]
fn verify_and_consume_accepts_the_right_mac_once() {
    let mut m = PairingManager::new();
    let pin = m.create_session("dev".to_string());
    let mac = compute_pin_mac(&pin, b"csr", b"nonce");
    let s = m.verify_and_consume_bytes("dev", b"csr", b"nonce", &mac).unwrap();
    assert_eq!(s.pin, pin);
    assert_eq!(m.verify_and_consume_bytes("dev", b"csr", b"nonce", &mac).unwrap_err(), PairingError::NoSession);
}

#[test]
fn wrong_pin_mac_is_refused_and_consumes_the_session() {
    let mut m = PairingManager::new();
    let pin = m.create_session("dev".to_string());
    let wrong = if pin == "000000" { "000001" } else { "000000" };
    let mac = compute_pin_mac(wrong, b"csr", b"nonce");
    assert_eq!(m.verify_and_consume_bytes("dev", b"csr", b"nonce", &mac).unwrap_err(), PairingError::MacMismatch);
    assert!(m.take_session("dev").is_none());
}

#[test]
fn hex_hmac_path() {
    let mut m = PairingManager::new();
    m.insert_session(PairingSession::start("dev".to_string(), "Jefe".to_string()));
    assert_eq!(m.verify_and_consume("dev", "what do ya want for nothing?", "00").unwrap_err(), PairingError::HmacMismatch);
    m.insert_session(PairingSession::start("dev".to_string(), "Jefe".to_string()));
    assert!(m.verify_and_consume("dev", "what do ya want for nothing?", JEFE_HMAC).is_ok());
    assert_eq!(m.verify_and_consume("other", "x", "y").unwrap_err(), PairingError::NoSession);
}

#[test]
fn purge_keeps_fresh_sessions() {
    let mut m = PairingManager::new();
    m.create_session("a".to_string());
    m.create_session("b".to_string());
    m.purge_expired();
    assert!(m.take_session("a").is_some());
    assert!(m.take_session("b").is_some());
}

#[test]
fn error_messages() {
    assert_eq!(PairingError::NoSession.message("dev"), "no active pairing session for device dev");
    assert_eq!(PairingError::Expired.message("dev"), "pairing session expired");
    assert_eq!(PairingError::HmacMismatch.message("dev"), "pairing HMAC verification failed");
    assert_eq!(PairingError::MacMismatch.message("dev"), "pairing MAC verification failed");
}

#[test]
fn pem_armour_pads_base64() {
    assert_eq!(bytes_to_pem(b"M"), "-----BEGIN CERTIFICATE REQUEST-----\nTQ==\n-----END CERTIFICATE REQUEST-----\n");
    assert_eq!(bytes_to_pem(b"Ma"), "-----BEGIN CERTIFICATE REQUEST-----\nTWE=\n-----END CERTIFICATE REQUEST-----\n");
    assert_eq!(bytes_to_pem(&[0xfb, 0xff]), "-----BEGIN CERTIFICATE REQUEST-----\n+/8=\n-----END CERTIFICATE REQUEST-----\n");
}

#[test]
fn pem_armour_wraps_base64_in_64_character_lines() {
    assert_eq!(bytes_to_pem(b"Man"), "-----BEGIN CERTIFICATE REQUEST-----\nTWFu\n-----END CERTIFICATE REQUEST-----\n");
    assert_eq!(bytes_to_pem(b""), "-----BEGIN CERTIFICATE REQUEST-----\n\n-----END CERTIFICATE REQUEST-----\n");
    let pem = bytes_to_pem(&[0u8; 49]);
    let body: Vec<&str> = pem.lines().collect();
    assert_eq!(body.len(), 4);
    assert_eq!(body[1].len(), 64);
    assert_eq!(body[2], "AA==");
}

#[test]
fn host_id_is_hex_of_first_eight_bytes() {
    assert_eq!(host_id_of(&[0x30, 0x82, 0x01, 0x90, 0xab, 0xcd, 0xef, 0x01, 0x02]), "30820190abcdef01");
    assert_eq!(host_id_of(&[0x30, 0x82]), "3082");
    assert_eq!(host_id_of(&[]), "");
    assert_eq!(host_id_of(&[0x00, 0x0f, 0xa0, 0xff]), "000fa0ff");
}

#[test]
fn consumed_session_belongs_to_the_requested_device() {
    let mut m = PairingManager::new();
    let pin_a = m.create_session("a".to_string());
    m.create_session("b".to_string());
    let mac = compute_pin_mac(&pin_a, b"csr", b"nonce");
    let s = m.verify_and_consume_bytes("a", b"csr", b"nonce", &mac).unwrap();
    assert_eq!(s.device_id, "a");
    assert_eq!(s.pin, pin_a);
    assert!(m.take_session("a").is_none());
    assert_eq!(m.take_session("b").unwrap().device_id, "b");
}
