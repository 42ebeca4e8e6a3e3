//! Frame inspection and byte-dump helpers.
//!
//! Diagnostics never required for correctness: reading the key id, counter
//! and section lengths back out of a wire frame without touching the
//! plaintext, and rendering bytes as hex or binary text. Inspection returns
//! an explicit struct - there is no ambient "last seen header" state, so
//! the helpers stay thread-safe and testable in isolation.

use vstd::prelude::*;

use crate::crypto::{parsed_header, sframe_parse_header};

verus! {

/// Length of the AES-GCM authentication tag trailing the ciphertext.
pub const AES_GCM_TAG_LEN: usize = 16;

/// What inspection reads out of one wire frame: header fields and the
/// lengths of its sections. The plaintext is never revealed.
#[derive(Clone, Copy, Debug, PartialEq, Eq, Structural)]
pub struct FrameInspection {
    pub kid: u64,
    pub ctr: u64,
    pub header_len: usize,
    pub ct_len: usize,
    pub tag_len: usize,
    pub total_len: usize,
}

/// Reads the header fields and section lengths of a wire frame; nothing if
/// the bytes do not start with a well-formed header. A body shorter than
/// one tag is reported as ciphertext with no tag.
pub fn inspect_frame(packet: &[u8]) -> (r: Option<FrameInspection>)
    ensures
        r is Some <==> parsed_header(packet@) is Some,
        r matches Some(fi) ==> (parsed_header(packet@) matches Some(h) && {
            &&& fi.kid == h.0
            &&& fi.ctr == h.1
            &&& fi.header_len == h.2
            &&& fi.total_len == packet@.len()
            &&& packet@.len() - h.2 >= 16 ==> fi.ct_len == packet@.len() - h.2 - 16 && fi.tag_len
                == 16
            &&& packet@.len() - h.2 < 16 ==> fi.ct_len == packet@.len() - h.2 && fi.tag_len == 0
        }),
{
    match sframe_parse_header(packet) {
        None => None,
        Some((kid, ctr, header_len)) => {
            let total_len = packet.len();
            let body = total_len - header_len;
            let (ct_len, tag_len) = if body >= AES_GCM_TAG_LEN {
                (body - AES_GCM_TAG_LEN, AES_GCM_TAG_LEN)
            } else {
                (body, 0)
            };
            Some(FrameInspection { kid, ctr, header_len, ct_len, tag_len, total_len })
        },
    }
}

/// The two lowercase hex digits of one byte, as ASCII.
pub open spec fn spec_hex_digit(d: u8) -> u8
    recommends
        d < 16,
{
    if d < 10 {
        (48 + d) as u8
    } else {
        (87 + d) as u8
    }
}

/// The lowercase hex rendering of a byte string, two ASCII digits per byte.
pub open spec fn spec_hex_bytes(s: Seq<u8>) -> Seq<u8>
    decreases s.len(),
{
    if s.len() == 0 {
        Seq::empty()
    } else {
        spec_hex_bytes(s.drop_last()) + seq![
            spec_hex_digit((s.last() >> 4) as u8),
            spec_hex_digit((s.last() & 0xf) as u8),
        ]
    }
}

/// ASCII bytes, one char per byte.
pub open spec fn spec_ascii_chars(s: Seq<u8>) -> Seq<char> {
    s.map_values(|b: u8| b as char)
}

/// Relies on `String::from_utf8`: ASCII bytes are valid UTF-8 and decode
/// to exactly one char per byte, each char being the byte's code point.
#[verifier::external_body]
fn ascii_to_string(bytes: &[u8]) -> (r: String)
    requires
        forall|i: int| 0 <= i < bytes@.len() ==> bytes@[i] < 128,
    ensures
        r@ == spec_ascii_chars(bytes@),
{
    String::from_utf8(bytes.to_vec()).expect("ASCII bytes are valid UTF-8")
}

/// Computes one lowercase hex digit.
fn hex_digit(d: u8) -> (r: u8)
    requires
        d < 16,
    ensures
        r == spec_hex_digit(d),
{
    if d < 10 {
        48 + d
    } else {
        87 + d
    }
}

/// Renders bytes as lowercase hex, two digits per byte.
pub fn to_hex(bytes: &[u8]) -> (r: String)
    ensures
        r@ == spec_ascii_chars(spec_hex_bytes(bytes@)),
{
    let mut out: Vec<u8> = Vec::new();
    let mut i: usize = 0;
    while i < bytes.len()
        invariant
            i <= bytes@.len(),
            out@ == spec_hex_bytes(bytes@.subrange(0, i as int)),
            forall|j: int| 0 <= j < out@.len() ==> out@[j] < 128,
        decreases bytes@.len() - i,
    {
        let b = bytes[i];
        assert(b >> 4 < 16 && b & 0xf < 16) by (bit_vector);
        out.push(hex_digit(b >> 4));
        out.push(hex_digit(b & 0xf));
        proof {
            assert(bytes@.subrange(0, i + 1 as int).drop_last() =~= bytes@.subrange(0, i as int));
            assert(out@ =~= spec_hex_bytes(bytes@.subrange(0, i + 1 as int)));
        }
        i = i + 1;
    }
    proof {
        assert(bytes@.subrange(0, bytes@.len() as int) =~= bytes@);
    }
    ascii_to_string(out.as_slice())
}

/// The eight ASCII binary digits of one byte, most significant bit first.
pub open spec fn spec_bin_byte(b: u8) -> Seq<u8> {
    seq![
        if (b >> 7) & 1 == 1 { 49u8 } else { 48u8 },
        if (b >> 6) & 1 == 1 { 49u8 } else { 48u8 },
        if (b >> 5) & 1 == 1 { 49u8 } else { 48u8 },
        if (b >> 4) & 1 == 1 { 49u8 } else { 48u8 },
        if (b >> 3) & 1 == 1 { 49u8 } else { 48u8 },
        if (b >> 2) & 1 == 1 { 49u8 } else { 48u8 },
        if (b >> 1) & 1 == 1 { 49u8 } else { 48u8 },
        if b & 1 == 1 { 49u8 } else { 48u8 },
    ]
}

/// The binary rendering of a byte string: eight digits per byte, bytes
/// separated by single spaces, no trailing space.
pub open spec fn spec_bin_bytes(s: Seq<u8>) -> Seq<u8>
    decreases s.len(),
{
    if s.len() == 0 {
        Seq::empty()
    } else if s.len() == 1 {
        spec_bin_byte(s.last())
    } else {
        spec_bin_bytes(s.drop_last()) + seq![32u8] + spec_bin_byte(s.last())
    }
}

/// Appends the eight binary digits of one byte.
fn push_bin_byte(out: &mut Vec<u8>, b: u8)
    ensures
        final(out)@ == old(out)@ + spec_bin_byte(b),
{
    out.push(if (b >> 7) & 1 == 1 { 49u8 } else { 48u8 });
    out.push(if (b >> 6) & 1 == 1 { 49u8 } else { 48u8 });
    out.push(if (b >> 5) & 1 == 1 { 49u8 } else { 48u8 });
    out.push(if (b >> 4) & 1 == 1 { 49u8 } else { 48u8 });
    out.push(if (b >> 3) & 1 == 1 { 49u8 } else { 48u8 });
    out.push(if (b >> 2) & 1 == 1 { 49u8 } else { 48u8 });
    out.push(if (b >> 1) & 1 == 1 { 49u8 } else { 48u8 });
    out.push(if b & 1 == 1 { 49u8 } else { 48u8 });
    assert(final(out)@ =~= old(out)@ + spec_bin_byte(b));
}

/// Renders bytes as space-separated binary octets.
pub fn bytes_to_bin(bytes: &[u8]) -> (r: String)
    ensures
        r@ == spec_ascii_chars(spec_bin_bytes(bytes@)),
{
    let mut out: Vec<u8> = Vec::new();
    let mut i: usize = 0;
    while i < bytes.len()
        invariant
            i <= bytes@.len(),
            out@ == spec_bin_bytes(bytes@.subrange(0, i as int)),
            forall|j: int| 0 <= j < out@.len() ==> out@[j] < 128,
        decreases bytes@.len() - i,
    {
        if i > 0 {
            out.push(32u8);
        }
        push_bin_byte(&mut out, bytes[i]);
        proof {
            assert(bytes@.subrange(0, i + 1 as int).drop_last() =~= bytes@.subrange(0, i as int));
            assert(out@ =~= spec_bin_bytes(bytes@.subrange(0, i + 1 as int)));
        }
        i = i + 1;
    }
    proof {
        assert(bytes@.subrange(0, bytes@.len() as int) =~= bytes@);
    }
    ascii_to_string(out.as_slice())
}

} // verus!
