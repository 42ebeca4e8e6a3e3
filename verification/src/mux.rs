//! Stream multiplexer framing.
//!
//! Two independently keyed media streams share one duplex byte stream by
//! tagging each wire frame with a stream id and a little-endian length:
//! `stream_id:u8 || length:u32-LE || frame_bytes`, repeated. The length
//! always equals the byte length of the frame that follows; there is no
//! resynchronization marker, so a truncated stream is fatal by design.
//! Encoding and decoding are pure functions of the bytes; the blocking
//! reads and locked writes around them belong to the caller.

use vstd::prelude::*;

verus! {

/// Stream id tagging video frames (a convention both peers share).
pub const SID_VIDEO: u8 = 0x01;

/// Stream id tagging audio frames (a convention both peers share).
pub const SID_AUDIO: u8 = 0x02;

/// Bytes of the multiplexed-frame header preceding the payload.
pub const MUX_HEADER_LEN: usize = 5;

/// The four little-endian bytes of a 32-bit length.
pub open spec fn spec_u32_le(n: u32) -> Seq<u8> {
    seq![
        (n & 0xff) as u8,
        ((n >> 8) & 0xff) as u8,
        ((n >> 16) & 0xff) as u8,
        ((n >> 24) & 0xff) as u8,
    ]
}

/// The 32-bit value read back from four little-endian bytes.
pub open spec fn spec_u32_from_le(b: Seq<u8>) -> u32
    recommends
        b.len() == 4,
{
    (b[0] as u32) | ((b[1] as u32) << 8) | ((b[2] as u32) << 16) | ((b[3] as u32) << 24)
}

/// One multiplexed wire frame: stream id, length, payload.
pub open spec fn spec_mux_frame(sid: u8, payload: Seq<u8>) -> Seq<u8> {
    seq![sid] + spec_u32_le(payload.len() as u32) + payload
}

/// What a reader finds at the head of a byte stream: the stream id, the
/// payload and the number of bytes consumed - or nothing while the frame
/// at the head is still incomplete.
pub open spec fn spec_parse_mux(b: Seq<u8>) -> Option<(u8, Seq<u8>, int)> {
    if b.len() < 5 {
        None
    } else {
        let len = spec_u32_from_le(b.subrange(1, 5)) as int;
        if b.len() < 5 + len {
            None
        } else {
            Some((b[0], b.subrange(5, 5 + len), 5 + len))
        }
    }
}

/// Appends the four little-endian bytes of `n` to `out`.
pub fn write_u32_le(out: &mut Vec<u8>, n: u32)
    ensures
        final(out)@ == old(out)@ + spec_u32_le(n),
{
    out.push((n & 0xff) as u8);
    out.push(((n >> 8) & 0xff) as u8);
    out.push(((n >> 16) & 0xff) as u8);
    out.push(((n >> 24) & 0xff) as u8);
    assert(final(out)@ =~= old(out)@ + spec_u32_le(n));
}

/// Reads a 32-bit little-endian value from the first four bytes of `b`;
/// nothing if fewer than four bytes are there.
pub fn read_u32_le(b: &[u8]) -> (r: Option<u32>)
    ensures
        r is Some <==> b@.len() >= 4,
        r matches Some(n) ==> n == spec_u32_from_le(b@.subrange(0, 4)),
{
    if b.len() < 4 {
        return None;
    }
    let n = (b[0] as u32) | ((b[1] as u32) << 8) | ((b[2] as u32) << 16) | ((b[3] as u32) << 24);
    Some(n)
}

/// Encodes one multiplexed frame; refused if the payload length does not
/// fit the 32-bit length field.
pub fn encode_mux_frame(sid: u8, payload: &[u8]) -> (r: Option<Vec<u8>>)
    ensures
        r is Some <==> payload@.len() <= u32::MAX,
        r matches Some(f) ==> f@ == spec_mux_frame(sid, payload@),
{
    if payload.len() > (u32::MAX as usize) {
        return None;
    }
    let len: u32 = payload.len() as u32;
    let mut out: Vec<u8> = Vec::new();
    out.push(sid);
    write_u32_le(&mut out, len);
    let mut i: usize = 0;
    while i < payload.len()
        invariant
            i <= payload@.len(),
            payload@.len() <= u32::MAX,
            len == payload@.len() as u32,
            out@ == seq![sid] + spec_u32_le(len) + payload@.subrange(0, i as int),
        decreases payload@.len() - i,
    {
        out.push(payload[i]);
        assert(out@ =~= seq![sid] + spec_u32_le(len) + payload@.subrange(0, i + 1 as int));
        i = i + 1;
    }
    proof {
        assert(out@ =~= spec_mux_frame(sid, payload@));
    }
    Some(out)
}

/// Decodes the frame at the head of `buf`, handing back its stream id, its
/// payload and the number of bytes consumed. Nothing is returned while the
/// head frame is incomplete; the caller must then read more bytes or treat
/// the stream as dead - partial frames are never resynchronized.
pub fn decode_mux_frame(buf: &[u8]) -> (r: Option<(u8, Vec<u8>, usize)>)
    ensures
        r is Some <==> spec_parse_mux(buf@) is Some,
        r matches Some(t) ==> (spec_parse_mux(buf@) matches Some(s) && t.0 == s.0 && t.1@ == s.1
            && t.2 == s.2),
{
    if buf.len() < 5 {
        return None;
    }
    let sid = buf[0];
    let len_bytes: [u8; 4] = [buf[1], buf[2], buf[3], buf[4]];
    let len = (len_bytes[0] as u32) | ((len_bytes[1] as u32) << 8) | ((len_bytes[2] as u32) << 16)
        | ((len_bytes[3] as u32) << 24);
    proof {
        assert(buf@.subrange(1, 5) =~= seq![buf@[1], buf@[2], buf@[3], buf@[4]]);
    }
    let len_usize = len as usize;
    if buf.len() < 5 || len_usize > buf.len() - 5 {
        return None;
    }
    let mut payload: Vec<u8> = Vec::new();
    let mut i: usize = 0;
    while i < len_usize
        invariant
            i <= len_usize,
            len_usize + 5 <= buf@.len(),
            buf@.len() <= usize::MAX,
            payload@ == buf@.subrange(5, 5 + i as int),
        decreases len_usize - i,
    {
        payload.push(buf[5 + i]);
        assert(payload@ =~= buf@.subrange(5, 5 + (i + 1) as int));
        i = i + 1;
    }
    Some((sid, payload, 5 + len_usize))
}

/// Round trip of the length field: reading the four little-endian bytes of
/// a value gives the value back.
pub proof fn lemma_u32_le_round_trip(n: u32)
    ensures
        spec_u32_from_le(spec_u32_le(n)) == n,
{
    assert((((n & 0xff) as u8) as u32) | (((((n >> 8) & 0xff) as u8) as u32) << 8) | (((((n >> 16)
        & 0xff) as u8) as u32) << 16) | (((((n >> 24) & 0xff) as u8) as u32) << 24) == n)
        by (bit_vector);
}

/// Frames are delivered exactly as written: a reader at the head of a byte
/// stream that starts with an encoded frame finds that frame - its stream
/// id and payload unchanged - and consumes exactly its bytes, leaving the
/// rest of the stream in order. In particular, writing frame after frame
/// onto one connection hands a reader the same frames in the same order.
pub proof fn lemma_mux_round_trip(sid: u8, payload: Seq<u8>, rest: Seq<u8>)
    requires
        payload.len() <= u32::MAX,
    ensures
        spec_parse_mux(spec_mux_frame(sid, payload) + rest) matches Some(t) && t.0 == sid && t.1
            == payload && t.2 == 5 + payload.len(),
        (spec_mux_frame(sid, payload) + rest).subrange(
            5 + payload.len() as int,
            (spec_mux_frame(sid, payload) + rest).len() as int,
        ) == rest,
{
    let frame = spec_mux_frame(sid, payload);
    let whole = frame + rest;
    let n = payload.len() as u32;
    lemma_u32_le_round_trip(n);
    assert(whole.subrange(1, 5) =~= spec_u32_le(n));
    assert(whole.len() == 5 + payload.len() + rest.len());
    assert(whole[0] == sid);
    assert(whole.subrange(5, 5 + payload.len() as int) =~= payload);
    assert(whole.subrange(5 + payload.len() as int, whole.len() as int) =~= rest);
}

} // verus!
