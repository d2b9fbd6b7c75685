//! Frames of screen pixels, and zstd compression of small payloads.
use vstd::prelude::*;

verus! {

#[verifier::external_type_specification]
#[verifier::external_body]
pub struct ExIoError(std::io::Error);

/// Largest payload `decompress` hands back: 64 MiB.
pub const MAX_DECOMPRESSED: usize = 67_108_864;

/// A captured video frame (raw BGRA pixels).
#[derive(Debug)]
pub struct RawFrame {
    pub width: u32,
    pub height: u32,
    pub stride: u32,
    pub data: Vec<u8>,
}

/// An encoded video frame ready for transmission.
#[derive(Debug)]
pub struct EncodedFrame {
    pub width: u32,
    pub height: u32,
    pub data: Vec<u8>,
    pub keyframe: bool,
    pub pts_us: u64,
}

/// Why compression or decompression failed.
#[derive(Debug, Clone, Copy, PartialEq, Eq, Structural)]
pub enum CodecError {
    Compress,
    Decompress,
}

/// The zstd frame `zstd::bulk::compress` makes of `data` at `level` (`None`
/// when it fails).
pub uninterp spec fn zstd_frame(data: Seq<u8>, level: i32) -> Option<Seq<u8>>;

/// What `zstd::bulk::decompress` reads from `frame` with room for `capacity`
/// bytes (`None` when it fails).
pub uninterp spec fn zstd_content(frame: Seq<u8>, capacity: usize) -> Option<Seq<u8>>;

/// Calls `zstd::bulk::compress(data, level)` (level 0 is zstd's default). The
/// frame depends on the data and the level alone; zstd is lossless, so
/// decompressing the frame with room for the data gives the data back.
#[verifier::external_body]
fn zstd_compress(data: &[u8], level: i32) -> (r: Result<Vec<u8>, std::io::Error>)
    ensures
        match r {
            Ok(v) => zstd_frame(data@, level) == Some(v@),
            Err(_) => zstd_frame(data@, level) is None,
        },
        r matches Ok(v) ==> forall|cap: usize| data@.len() <= cap ==> #[trigger] zstd_content(v@, cap) == Some(data@),
{
    zstd::bulk::compress(data, level)
}

/// Calls `zstd::bulk::decompress(data, capacity)`. The content depends on the
/// frame and the capacity alone.
#[verifier::external_body]
fn zstd_decompress(data: &[u8], capacity: usize) -> (r: Result<Vec<u8>, std::io::Error>)
    ensures
        match r {
            Ok(v) => zstd_content(data@, capacity) == Some(v@),
            Err(_) => zstd_content(data@, capacity) is None,
        },
{
    zstd::bulk::decompress(data, capacity)
}

/// Compress `data` with zstd at `level` (for clipboard and other small payloads).
pub fn compress(data: &[u8], level: i32) -> (r: Result<Vec<u8>, CodecError>)
    ensures
        match r {
            Ok(v) => zstd_frame(data@, level) == Some(v@),
            Err(e) => e == CodecError::Compress && zstd_frame(data@, level) is None,
        },
        r matches Ok(v) ==> forall|cap: usize| data@.len() <= cap ==> #[trigger] zstd_content(v@, cap) == Some(data@),
{
    match zstd_compress(data, level) {
        Ok(v) => Ok(v),
        Err(_) => Err(CodecError::Compress),
    }
}

/// Decompress a zstd frame of at most 64 MiB of content.
pub fn decompress(data: &[u8]) -> (r: Result<Vec<u8>, CodecError>)
    ensures
        match r {
            Ok(v) => zstd_content(data@, MAX_DECOMPRESSED) == Some(v@),
            Err(e) => e == CodecError::Decompress && zstd_content(data@, MAX_DECOMPRESSED) is None,
        },
{
    match zstd_decompress(data, MAX_DECOMPRESSED) {
        Ok(v) => Ok(v),
        Err(_) => Err(CodecError::Decompress),
    }
}

/// Compressing and then decompressing gives the data back, for data of at
/// most 64 MiB.
pub proof fn lemma_roundtrip(data: Seq<u8>, frame: Seq<u8>)
    requires
        data.len() <= MAX_DECOMPRESSED,
        forall|cap: usize| data.len() <= cap ==> #[trigger] zstd_content(frame, cap) == Some(data),
    ensures
        zstd_content(frame, MAX_DECOMPRESSED) == Some(data),
{
}

} // verus!
