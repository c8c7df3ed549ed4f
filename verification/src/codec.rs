//! The serialized chunk payload: a fixed-size byte encoding of the
//! block and light arrays, compressed as one LZ4 frame. This is the
//! byte-buffer boundary handed to the network and storage
//! collaborators; the chunk's position travels alongside the buffer,
//! not inside it.
//!
//! Each cell contributes four bytes, its light level followed by its
//! block type, both as little-endian 16-bit integers.

use vstd::prelude::*;

verus! {

use crate::CHUNK_VOLUME;
use crate::chunk::ChunkDataView;
use vstd::arithmetic::div_mod::lemma_fundamental_div_mod_converse;

/// Byte `k` of the decompressed payload: cell `k / 4`, with the light
/// level in the first two bytes and the block type in the last two,
/// each little-endian.
pub open spec fn payload_byte(c: ChunkDataView, k: int) -> u8 {
    let e = k / 4;
    let b = k % 4;
    if b == 0 {
        (c.skylightlevel[e] & 0xff) as u8
    } else if b == 1 {
        (c.skylightlevel[e] >> 8) as u8
    } else if b == 2 {
        (c.terrain[e] & 0xff) as u8
    } else {
        (c.terrain[e] >> 8) as u8
    }
}

/// The whole decompressed payload of a chunk, four bytes per cell.
pub open spec fn payload_of(c: ChunkDataView) -> Seq<u8> {
    Seq::new((4 * CHUNK_VOLUME) as nat, |k: int| payload_byte(c, k))
}

/// The light level stored for cell `e` in a decompressed payload.
pub open spec fn decoded_light(bytes: Seq<u8>, e: int) -> u16 {
    (bytes[4 * e] + 256 * bytes[4 * e + 1]) as u16
}

/// The block type stored for cell `e` in a decompressed payload.
pub open spec fn decoded_block(bytes: Seq<u8>, e: int) -> u16 {
    (bytes[4 * e + 2] + 256 * bytes[4 * e + 3]) as u16
}

/// The LZ4 frame that compression produces for the given bytes.
pub uninterp spec fn lz4_frame(s: Seq<u8>) -> Seq<u8>;

/// What decompressing the given bytes yields: the original data for a
/// well-formed LZ4 frame, nothing for a malformed one.
pub uninterp spec fn lz4_unframe(s: Seq<u8>) -> Option<Seq<u8>>;

/// Relies on lzzzz::lz4f::compress_to_vec: compressing with the
/// default preferences is a deterministic function of the input bytes,
/// and decompressing the produced frame yields the input again (LZ4
/// frame compression is lossless).
#[verifier::external_body]
pub(crate) fn lz4_compress(src: &Vec<u8>) -> (r: Vec<u8>)
    requires
        src@.len() < 0x40000000,
    ensures
        r@ == lz4_frame(src@),
        lz4_unframe(r@) == Some(src@),
{
    let prefs = lzzzz::lz4f::Preferences::default();
    let mut buf: Vec<u8> = Vec::new();
    lzzzz::lz4f::compress_to_vec(src, &mut buf, &prefs).expect("LZ4 frame compression failed");
    buf
}

/// Relies on lzzzz::lz4f::decompress_to_vec: decompressing is a
/// deterministic function of the input bytes; it yields data exactly
/// when the input is a well-formed LZ4 frame.
#[verifier::external_body]
pub(crate) fn lz4_decompress(src: &Vec<u8>) -> (r: Option<Vec<u8>>)
    ensures
        r matches Some(v) ==> lz4_unframe(src@) == Some(v@),
        r is None <==> lz4_unframe(src@) is None,
{
    let mut buf: Vec<u8> = Vec::new();
    match lzzzz::lz4f::decompress_to_vec(src, &mut buf) {
        Ok(_) => Some(buf),
        Err(_) => None,
    }
}

/// Dividing the byte position `4 * e + b` of a cell's `b`-th byte by
/// the four bytes per cell recovers the cell and the byte offset.
pub(crate) proof fn lemma_byte_position(e: int, b: int)
    requires
        0 <= b < 4,
    ensures
        (4 * e + b) / 4 == e,
        (4 * e + b) % 4 == b,
{
    lemma_fundamental_div_mod_converse(4 * e + b, 4, e, b);
}

/// A 16-bit value is recovered from its two little-endian bytes.
pub(crate) proof fn lemma_u16_parts(v: u16)
    ensures
        (v & 0xff) < 256,
        (v >> 8) < 256,
        (v & 0xff) + 256 * (v >> 8) == v,
{
    assert((v & 0xff) < 256 && (v >> 8) < 256 && (v & 0xff) + 256 * (v >> 8) == v)
        by (bit_vector);
}

/// Decoding a chunk's encoded payload yields the chunk's own cell
/// arrays back: the payload encoding is lossless.
pub proof fn lemma_payload_roundtrip(c: ChunkDataView)
    requires
        c.wf(),
    ensures
        forall|e: int|
            0 <= e < CHUNK_VOLUME ==> #[trigger] decoded_block(payload_of(c), e) == c.terrain[e],
        forall|e: int|
            0 <= e < CHUNK_VOLUME ==> #[trigger] decoded_light(payload_of(c), e)
                == c.skylightlevel[e],
{
    assert forall|e: int| 0 <= e < CHUNK_VOLUME implies #[trigger] decoded_block(payload_of(c), e)
        == c.terrain[e] by {
        lemma_byte_position(e, 2);
        lemma_byte_position(e, 3);
        lemma_u16_parts(c.terrain[e]);
    }
    assert forall|e: int| 0 <= e < CHUNK_VOLUME implies #[trigger] decoded_light(payload_of(c), e)
        == c.skylightlevel[e] by {
        lemma_byte_position(e, 0);
        lemma_byte_position(e, 1);
        lemma_u16_parts(c.skylightlevel[e]);
    }
}

} // verus!
