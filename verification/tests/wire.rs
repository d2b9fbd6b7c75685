use contixis::framing::{decode_header, encode_header, FrameError, MAX_PAYLOAD_LEN};
use contixis::proto::MsgType;

#[test]
fn msg_type_bytes_round_trip() {
    let all = [
        (MsgType::Handshake, 0x01u8),
        (MsgType::PairingRequired, 0x02),
        (MsgType::PairingRequest, 0x03),
        (MsgType::PairingSuccess, 0x04),
        (MsgType::PairingFailed, 0x05),
        (MsgType::SessionReady, 0x06),
        (MsgType::SessionTerminate, 0x07),
        (MsgType::Heartbeat, 0x10),
        (MsgType::HeartbeatAck, 0x11),
        (MsgType::GridLayout, 0x20),
        (MsgType::ScreenInfoUpdate, 0x21),
        (MsgType::FocusTransfer, 0x30),
        (MsgType::FocusDrop, 0x31),
        (MsgType::FocusRelease, 0x36),
        (MsgType::MouseMove, 0x32),
        (MsgType::MouseButton, 0x33),
        (MsgType::MouseScroll, 0x34),
        (MsgType::KeyEvent, 0x35),
        (MsgType::ClipboardNotify, 0x40),
        (MsgType::ClipboardRequest, 0x41),
        (MsgType::ClipboardData, 0x42),
        (MsgType::AgentStatus, 0x50),
        (MsgType::TimeSyncPing, 0x60),
        (MsgType::TimeSyncPong, 0x61),
    ];
    for (t, b) in all {
        assert_eq!(t.as_byte(), b);
        assert_eq!(MsgType::try_from(b), Ok(t));
    }
}

#[test]
fn unknown_msg_type_byte_is_handed_back() {
    assert_eq!(MsgType::try_from(0x00), Err(0x00));
    assert_eq!(MsgType::try_from(0x37), Err(0x37));
    assert_eq!(MsgType::try_from(0xFF), Err(0xFF));
}

#[test]
fn header_layout_is_type_then_big_endian_length() {
    let h = encode_header(MsgType::KeyEvent, 0x0A0B0C).unwrap();
    assert_eq!(h, [0x35, 0x0A, 0x0B, 0x0C]);
    let h = encode_header(MsgType::Heartbeat, 0).unwrap();
    assert_eq!(h, [0x10, 0, 0, 0]);
}

#[test]
fn header_round_trip() {
    for len in [0usize, 1, 255, 256, 65_535, 65_536, 1_000_000, MAX_PAYLOAD_LEN] {
        let h = encode_header(MsgType::ClipboardData, len).unwrap();
        assert_eq!(decode_header(&h), Ok((MsgType::ClipboardData, len)));
    }
}

#[test]
fn oversized_payload_is_refused() {
    assert_eq!(encode_header(MsgType::ClipboardData, MAX_PAYLOAD_LEN + 1), Err(FrameError::PayloadTooLarge(MAX_PAYLOAD_LEN + 1)));
}

#[test]
fn unknown_type_in_header_is_refused() {
    assert_eq!(decode_header(&[0x99, 0, 0, 4]), Err(FrameError::UnknownMsgType(0x99)));
}
