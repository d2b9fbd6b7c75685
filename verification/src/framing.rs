//! Wire framing: `[u8 type][u24 big-endian length][payload]`.
use vstd::prelude::*;
use crate::proto::{MsgType, msg_type_code, msg_type_of_code};

verus! {

/// Largest payload length that fits the 24-bit length field.
pub const MAX_PAYLOAD_LEN: usize = 0x00FF_FFFF;

/// One decoded wire frame.
pub struct Frame {
    pub msg_type: MsgType,
    pub payload: Vec<u8>,
}

/// Why a frame could not be written or read.
#[derive(Debug, Clone, Copy, PartialEq, Eq, Structural)]
pub enum FrameError {
    /// The payload does not fit the 24-bit length field.
    PayloadTooLarge(usize),
    /// The type byte names no known message type.
    UnknownMsgType(u8),
}

/// The four header bytes for a frame of type `t` with a payload of `len` bytes.
pub open spec fn header_bytes(t: MsgType, len: nat) -> Seq<u8> {
    seq![
        msg_type_code(t),
        ((len / 0x1_0000) % 0x100) as u8,
        ((len / 0x100) % 0x100) as u8,
        (len % 0x100) as u8,
    ]
}

/// The payload length that header bytes 1..4 announce.
pub open spec fn header_len(h: Seq<u8>) -> nat {
    (h[1] as nat) * 0x1_0000 + (h[2] as nat) * 0x100 + (h[3] as nat)
}

/// The bytes a whole frame occupies on the wire.
pub open spec fn frame_bytes(t: MsgType, payload: Seq<u8>) -> Seq<u8> {
    header_bytes(t, payload.len()) + payload
}

proof fn lemma_shift_bytes(len: usize)
    requires
        len <= 0x00FF_FFFF,
    ensures
        ((len >> 16) & 0xFF) as u8 == ((len / 0x1_0000) % 0x100) as u8,
        ((len >> 8) & 0xFF) as u8 == ((len / 0x100) % 0x100) as u8,
        (len & 0xFF) as u8 == (len % 0x100) as u8,
{
    assert(((len >> 16) & 0xFF) == (len / 0x1_0000) % 0x100) by (bit_vector);
    assert(((len >> 8) & 0xFF) == (len / 0x100) % 0x100) by (bit_vector);
    assert((len & 0xFF) == len % 0x100) by (bit_vector);
}

proof fn lemma_join_bytes(a: u8, b: u8, c: u8)
    ensures
        (((a as usize) << 16) | ((b as usize) << 8) | (c as usize)) as nat
            == (a as nat) * 0x1_0000 + (b as nat) * 0x100 + (c as nat),
{
    let x = a as usize;
    let y = b as usize;
    let z = c as usize;
    assert(x < 256 && y < 256 && z < 256 ==> ((x << 16) | (y << 8) | z) == x * 0x1_0000 + y * 0x100
        + z) by (bit_vector);
}

/// Build the header that precedes a payload of `len` bytes, or refuse a payload
/// that does not fit the 24-bit length field.
pub fn encode_header(msg_type: MsgType, len: usize) -> (r: Result<[u8; 4], FrameError>)
    ensures
        len <= MAX_PAYLOAD_LEN <==> r is Ok,
        r matches Ok(h) ==> h@ == header_bytes(msg_type, len as nat),
        r matches Err(e) ==> e == FrameError::PayloadTooLarge(len),
{
    if len > MAX_PAYLOAD_LEN {
        return Err(FrameError::PayloadTooLarge(len));
    }
    proof {
        lemma_shift_bytes(len);
    }
    let mut header = [0u8; 4];
    header[0] = msg_type.as_byte();
    header[1] = ((len >> 16) & 0xFF) as u8;
    header[2] = ((len >> 8) & 0xFF) as u8;
    header[3] = (len & 0xFF) as u8;
    assert(header@ =~= header_bytes(msg_type, len as nat));
    Ok(header)
}

/// Decode a frame header into its message type and payload length.
pub fn decode_header(header: &[u8; 4]) -> (r: Result<(MsgType, usize), FrameError>)
    ensures
        match msg_type_of_code(header@[0]) {
            Some(t) => r == Ok::<(MsgType, usize), FrameError>((t, header_len(header@) as usize)),
            None => r == Err::<(MsgType, usize), FrameError>(
                FrameError::UnknownMsgType(header@[0]),
            ),
        },
        r is Ok ==> header_len(header@) <= MAX_PAYLOAD_LEN,
{
    let raw_type = header[0];
    let msg_type = match MsgType::try_from(raw_type) {
        Ok(t) => t,
        Err(b) => {
            return Err(FrameError::UnknownMsgType(b));
        },
    };
    let a = header[1];
    let b = header[2];
    let c = header[3];
    proof {
        lemma_join_bytes(a, b, c);
    }
    let len = ((a as usize) << 16) | ((b as usize) << 8) | (c as usize);
    Ok((msg_type, len))
}

/// Whatever header `encode_header` writes, `decode_header` reads back the same
/// message type and payload length.
pub proof fn lemma_header_roundtrip(t: MsgType, len: nat)
    requires
        len <= MAX_PAYLOAD_LEN,
    ensures
        header_bytes(t, len).len() == 4,
        msg_type_of_code(header_bytes(t, len)[0]) == Some(t),
        header_len(header_bytes(t, len)) == len,
{
    crate::proto::lemma_code_roundtrip(t);
    assert(((len / 0x1_0000) % 0x100) as u8 as nat == (len / 0x1_0000) % 0x100);
    assert(((len / 0x100) % 0x100) as u8 as nat == (len / 0x100) % 0x100);
    assert((len % 0x100) as u8 as nat == len % 0x100);
    assert(len / 0x1_0000 < 0x100);
    assert((len / 0x1_0000) * 0x1_0000 + ((len / 0x100) % 0x100) * 0x100 + len % 0x100 == len)
        by (nonlinear_arith)
        requires
            len <= 0x00FF_FFFF,
    ;
}

/// A frame's wire bytes start with its header and carry the payload unchanged
/// after it, so a reader that decodes the header and then takes the announced
/// number of bytes gets back the frame that was written.
pub proof fn lemma_frame_roundtrip(t: MsgType, payload: Seq<u8>)
    requires
        payload.len() <= MAX_PAYLOAD_LEN,
    ensures
        msg_type_of_code(frame_bytes(t, payload)[0]) == Some(t),
        header_len(frame_bytes(t, payload).subrange(0, 4)) == payload.len(),
        frame_bytes(t, payload).subrange(4, 4 + payload.len() as int) == payload,
{
    lemma_header_roundtrip(t, payload.len());
    let w = frame_bytes(t, payload);
    assert(w.subrange(0, 4) =~= header_bytes(t, payload.len()));
    assert(w.subrange(4, 4 + payload.len() as int) =~= payload);
}

} // verus!
