//! Message type tags used on the wire, and input-related constants.
use vstd::prelude::*;

verus! {

/// Message type byte used in wire framing.
#[derive(Debug, Clone, Copy, PartialEq, Eq, Structural)]
pub enum MsgType {
    Handshake,
    PairingRequired,
    PairingRequest,
    PairingSuccess,
    PairingFailed,
    SessionReady,
    SessionTerminate,
    Heartbeat,
    HeartbeatAck,
    GridLayout,
    ScreenInfoUpdate,
    FocusTransfer,
    FocusDrop,
    FocusRelease,
    MouseMove,
    MouseButton,
    MouseScroll,
    KeyEvent,
    ClipboardNotify,
    ClipboardRequest,
    ClipboardData,
    AgentStatus,
    TimeSyncPing,
    TimeSyncPong,
}

/// The byte that stands for each message type on the wire.
pub open spec fn msg_type_code(t: MsgType) -> u8 {
    match t {
        MsgType::Handshake => 0x01,
        MsgType::PairingRequired => 0x02,
        MsgType::PairingRequest => 0x03,
        MsgType::PairingSuccess => 0x04,
        MsgType::PairingFailed => 0x05,
        MsgType::SessionReady => 0x06,
        MsgType::SessionTerminate => 0x07,
        MsgType::Heartbeat => 0x10,
        MsgType::HeartbeatAck => 0x11,
        MsgType::GridLayout => 0x20,
        MsgType::ScreenInfoUpdate => 0x21,
        MsgType::FocusTransfer => 0x30,
        MsgType::FocusDrop => 0x31,
        MsgType::FocusRelease => 0x36,
        MsgType::MouseMove => 0x32,
        MsgType::MouseButton => 0x33,
        MsgType::MouseScroll => 0x34,
        MsgType::KeyEvent => 0x35,
        MsgType::ClipboardNotify => 0x40,
        MsgType::ClipboardRequest => 0x41,
        MsgType::ClipboardData => 0x42,
        MsgType::AgentStatus => 0x50,
        MsgType::TimeSyncPing => 0x60,
        MsgType::TimeSyncPong => 0x61,
    }
}

/// The message type a byte stands for, if any.
pub open spec fn msg_type_of_code(v: u8) -> Option<MsgType> {
    if v == 0x01 { Some(MsgType::Handshake) }
    else if v == 0x02 { Some(MsgType::PairingRequired) }
    else if v == 0x03 { Some(MsgType::PairingRequest) }
    else if v == 0x04 { Some(MsgType::PairingSuccess) }
    else if v == 0x05 { Some(MsgType::PairingFailed) }
    else if v == 0x06 { Some(MsgType::SessionReady) }
    else if v == 0x07 { Some(MsgType::SessionTerminate) }
    else if v == 0x10 { Some(MsgType::Heartbeat) }
    else if v == 0x11 { Some(MsgType::HeartbeatAck) }
    else if v == 0x20 { Some(MsgType::GridLayout) }
    else if v == 0x21 { Some(MsgType::ScreenInfoUpdate) }
    else if v == 0x30 { Some(MsgType::FocusTransfer) }
    else if v == 0x31 { Some(MsgType::FocusDrop) }
    else if v == 0x36 { Some(MsgType::FocusRelease) }
    else if v == 0x32 { Some(MsgType::MouseMove) }
    else if v == 0x33 { Some(MsgType::MouseButton) }
    else if v == 0x34 { Some(MsgType::MouseScroll) }
    else if v == 0x35 { Some(MsgType::KeyEvent) }
    else if v == 0x40 { Some(MsgType::ClipboardNotify) }
    else if v == 0x41 { Some(MsgType::ClipboardRequest) }
    else if v == 0x42 { Some(MsgType::ClipboardData) }
    else if v == 0x50 { Some(MsgType::AgentStatus) }
    else if v == 0x60 { Some(MsgType::TimeSyncPing) }
    else if v == 0x61 { Some(MsgType::TimeSyncPong) }
    else { None }
}

impl MsgType {
    /// The wire byte of this message type.
    pub fn as_byte(&self) -> (r: u8)
        ensures
            r == msg_type_code(*self),
    {
        match self {
            MsgType::Handshake => 0x01,
            MsgType::PairingRequired => 0x02,
            MsgType::PairingRequest => 0x03,
            MsgType::PairingSuccess => 0x04,
            MsgType::PairingFailed => 0x05,
            MsgType::SessionReady => 0x06,
            MsgType::SessionTerminate => 0x07,
            MsgType::Heartbeat => 0x10,
            MsgType::HeartbeatAck => 0x11,
            MsgType::GridLayout => 0x20,
            MsgType::ScreenInfoUpdate => 0x21,
            MsgType::FocusTransfer => 0x30,
            MsgType::FocusDrop => 0x31,
            MsgType::FocusRelease => 0x36,
            MsgType::MouseMove => 0x32,
            MsgType::MouseButton => 0x33,
            MsgType::MouseScroll => 0x34,
            MsgType::KeyEvent => 0x35,
            MsgType::ClipboardNotify => 0x40,
            MsgType::ClipboardRequest => 0x41,
            MsgType::ClipboardData => 0x42,
            MsgType::AgentStatus => 0x50,
            MsgType::TimeSyncPing => 0x60,
            MsgType::TimeSyncPong => 0x61,
        }
    }

    /// Decode a wire byte; an unknown byte is handed back as the error.
    pub fn try_from(v: u8) -> (r: Result<MsgType, u8>)
        ensures
            match msg_type_of_code(v) {
                Some(t) => r == Ok::<MsgType, u8>(t),
                None => r == Err::<MsgType, u8>(v),
            },
    {
        match v {
            0x01 => Ok(MsgType::Handshake),
            0x02 => Ok(MsgType::PairingRequired),
            0x03 => Ok(MsgType::PairingRequest),
            0x04 => Ok(MsgType::PairingSuccess),
            0x05 => Ok(MsgType::PairingFailed),
            0x06 => Ok(MsgType::SessionReady),
            0x07 => Ok(MsgType::SessionTerminate),
            0x10 => Ok(MsgType::Heartbeat),
            0x11 => Ok(MsgType::HeartbeatAck),
            0x20 => Ok(MsgType::GridLayout),
            0x21 => Ok(MsgType::ScreenInfoUpdate),
            0x30 => Ok(MsgType::FocusTransfer),
            0x31 => Ok(MsgType::FocusDrop),
            0x36 => Ok(MsgType::FocusRelease),
            0x32 => Ok(MsgType::MouseMove),
            0x33 => Ok(MsgType::MouseButton),
            0x34 => Ok(MsgType::MouseScroll),
            0x35 => Ok(MsgType::KeyEvent),
            0x40 => Ok(MsgType::ClipboardNotify),
            0x41 => Ok(MsgType::ClipboardRequest),
            0x42 => Ok(MsgType::ClipboardData),
            0x50 => Ok(MsgType::AgentStatus),
            0x60 => Ok(MsgType::TimeSyncPing),
            0x61 => Ok(MsgType::TimeSyncPong),
            other => Err(other),
        }
    }
}

/// Every message type decodes back from its own wire byte.
pub proof fn lemma_code_roundtrip(t: MsgType)
    ensures
        msg_type_of_code(msg_type_code(t)) == Some(t),
{
}

/// A byte that decodes to a message type is that type's wire byte, so no two
/// message types share a byte.
pub proof fn lemma_code_injective(v: u8)
    ensures
        msg_type_of_code(v) matches Some(t) ==> msg_type_code(t) == v,
{
}

/// Keyboard modifier bit flags.
pub const MOD_SHIFT: u32 = 1;
pub const MOD_CTRL: u32 = 2;
pub const MOD_ALT: u32 = 4;
pub const MOD_META: u32 = 8;

/// Common HID usage codes for key normalisation.
pub const HID_A: u32 = 0x04;
pub const HID_Z: u32 = 0x1D;
pub const HID_ENTER: u32 = 0x28;
pub const HID_ESCAPE: u32 = 0x29;
pub const HID_BACKSPACE: u32 = 0x2A;
pub const HID_TAB: u32 = 0x2B;
pub const HID_SPACE: u32 = 0x2C;
pub const HID_F1: u32 = 0x3A;
pub const HID_F12: u32 = 0x45;
pub const HID_SCROLL_LOCK: u32 = 0x47;
pub const HID_PAUSE: u32 = 0x48;
pub const HID_LEFT_CTRL: u32 = 0xE0;
pub const HID_LEFT_SHIFT: u32 = 0xE1;
pub const HID_LEFT_ALT: u32 = 0xE2;
pub const HID_LEFT_META: u32 = 0xE3;
pub const HID_RIGHT_CTRL: u32 = 0xE4;

} // verus!
