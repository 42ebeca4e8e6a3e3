//! Trusted boundary to the secure-framing library.
//!
//! The AEAD cipher suites and the wire-header binary format are owned by the
//! `sframe` crate (an implementation of RFC 9605). This module consumes it
//! through an `encrypt(payload) -> frame` / `decrypt(frame) -> payload`
//! contract: the bytes it produces are named by uninterpreted functions, and
//! the one fact the rest of the crate builds on is that decryption inverts
//! encryption under the same suite, key id and key material.

use vstd::prelude::*;

verus! {

/// AEAD cipher suite selecting the encryption and hash algorithms of the
/// framing layer.
#[derive(Clone, Copy, Debug, PartialEq, Eq, Structural)]
pub enum SuiteId {
    AesGcm128Sha256,
    AesGcm256Sha512,
}

/// Cipher-suite choice as it appears on a command line.
#[derive(Clone, Copy, Debug, PartialEq, Eq, Structural)]
pub enum ArgCipherSuiteVariant {
    AesGcm128Sha256,
    AesGcm256Sha512,
}

impl ArgCipherSuiteVariant {
    /// The cipher suite this argument selects.
    pub fn to_suite(self) -> (r: SuiteId)
        ensures
            self is AesGcm128Sha256 ==> r == SuiteId::AesGcm128Sha256,
            self is AesGcm256Sha512 ==> r == SuiteId::AesGcm256Sha512,
    {
        match self {
            ArgCipherSuiteVariant::AesGcm128Sha256 => SuiteId::AesGcm128Sha256,
            ArgCipherSuiteVariant::AesGcm256Sha512 => SuiteId::AesGcm256Sha512,
        }
    }
}

/// A byte string lowercased, ASCII letters only.
pub open spec fn spec_ascii_lower(s: Seq<u8>) -> Seq<u8> {
    s.map_values(
        |b: u8|
            if 65 <= b <= 90 {
                (b + 32) as u8
            } else {
                b
            },
    )
}

/// Lowercases the ASCII letters of a byte string.
pub fn ascii_lower(s: &[u8]) -> (r: Vec<u8>)
    ensures
        r@ == spec_ascii_lower(s@),
{
    let mut out: Vec<u8> = Vec::new();
    let mut i: usize = 0;
    while i < s.len()
        invariant
            i <= s@.len(),
            out@ == spec_ascii_lower(s@.subrange(0, i as int)),
        decreases s@.len() - i,
    {
        let b = s[i];
        if 65 <= b && b <= 90 {
            out.push(b + 32);
        } else {
            out.push(b);
        }
        proof {
            assert(out@ =~= spec_ascii_lower(s@.subrange(0, i + 1 as int)));
        }
        i = i + 1;
    }
    proof {
        assert(s@.subrange(0, s@.len() as int) =~= s@);
    }
    out
}

/// The suite a label names, compared case-insensitively against the
/// accepted spellings; the 128-bit suite answers to `aes-gcm128-sha256`,
/// `aesgcm128` and `128`, the 256-bit one to the analogous three.
pub open spec fn spec_suite_of_label(label: Seq<u8>) -> Option<SuiteId> {
    let l = spec_ascii_lower(label);
    if l == "aes-gcm128-sha256"@.map_values(|c: char| c as u8) || l == "aesgcm128"@.map_values(
        |c: char| c as u8,
    ) || l == "128"@.map_values(|c: char| c as u8) {
        Some(SuiteId::AesGcm128Sha256)
    } else if l == "aes-gcm256-sha512"@.map_values(|c: char| c as u8) || l
        == "aesgcm256"@.map_values(|c: char| c as u8) || l == "256"@.map_values(
        |c: char| c as u8,
    ) {
        Some(SuiteId::AesGcm256Sha512)
    } else {
        None
    }
}

/// Compares two byte strings.
fn bytes_eq(a: &[u8], b: &[u8]) -> (r: bool)
    ensures
        r == (a@ == b@),
{
    if a.len() != b.len() {
        proof {
            assert(a@.len() != b@.len());
        }
        return false;
    }
    let n = a.len();
    let mut i: usize = 0;
    while i < n
        invariant
            i <= n,
            n == a@.len() == b@.len(),
            forall|k: int| 0 <= k < i ==> a@[k] == b@[k],
        decreases n - i,
    {
        if a[i] != b[i] {
            return false;
        }
        i = i + 1;
    }
    proof {
        assert(a@ =~= b@);
    }
    true
}

/// Parses a cipher-suite label, case-insensitively.
pub fn suite_from_label(label: &[u8]) -> (r: Option<SuiteId>)
    ensures
        r == spec_suite_of_label(label@),
{
    let l = ascii_lower(label);
    proof {
        reveal_strlit("aes-gcm128-sha256");
        reveal_strlit("aesgcm128");
        reveal_strlit("128");
        reveal_strlit("aes-gcm256-sha512");
        reveal_strlit("aesgcm256");
        reveal_strlit("256");
    }
    let c128: [u8; 17] = [
        97, 101, 115, 45, 103, 99, 109, 49, 50, 56, 45, 115, 104, 97, 50, 53, 54,
    ];
    let s128: [u8; 9] = [97, 101, 115, 103, 99, 109, 49, 50, 56];
    let n128: [u8; 3] = [49, 50, 56];
    let c256: [u8; 17] = [
        97, 101, 115, 45, 103, 99, 109, 50, 53, 54, 45, 115, 104, 97, 53, 49, 50,
    ];
    let s256: [u8; 9] = [97, 101, 115, 103, 99, 109, 50, 53, 54];
    let n256: [u8; 3] = [50, 53, 54];
    proof {
        assert(c128@ =~= "aes-gcm128-sha256"@.map_values(|c: char| c as u8));
        assert(s128@ =~= "aesgcm128"@.map_values(|c: char| c as u8));
        assert(n128@ =~= "128"@.map_values(|c: char| c as u8));
        assert(c256@ =~= "aes-gcm256-sha512"@.map_values(|c: char| c as u8));
        assert(s256@ =~= "aesgcm256"@.map_values(|c: char| c as u8));
        assert(n256@ =~= "256"@.map_values(|c: char| c as u8));
    }
    if bytes_eq(l.as_slice(), c128.as_slice()) || bytes_eq(l.as_slice(), s128.as_slice())
        || bytes_eq(l.as_slice(), n128.as_slice()) {
        Some(SuiteId::AesGcm128Sha256)
    } else if bytes_eq(l.as_slice(), c256.as_slice()) || bytes_eq(l.as_slice(), s256.as_slice())
        || bytes_eq(l.as_slice(), n256.as_slice()) {
        Some(SuiteId::AesGcm256Sha512)
    } else {
        None
    }
}

/// The wire frame (`header || ciphertext || tag`) the framing library
/// produces for a suite, key id, counter, key material and payload. Its exact
/// bytes are owned by that library; nothing but the trusted items below says
/// anything about them.
pub uninterp spec fn frame_bytes(
    suite: SuiteId,
    kid: u64,
    ctr: u64,
    material: Seq<u8>,
    payload: Seq<u8>,
) -> Seq<u8>;

/// What the framing library parses out of the leading header of a wire
/// frame: the key id, the counter and the header length, or nothing if the
/// bytes do not start with a well-formed header.
pub uninterp spec fn parsed_header(frame: Seq<u8>) -> Option<(u64, u64, usize)>;

/// One forward step of the deterministic key-material ratchet chain, a
/// function of the suite and the current material alone.
pub uninterp spec fn ratchet_next(suite: SuiteId, material: Seq<u8>) -> Seq<u8>;

/// Relies on `sframe::key::EncryptionKey::derive_from` and
/// `sframe::frame::MediaFrameView::encrypt_into`: the produced frame is a
/// function of suite, key id, counter, key material and payload alone
/// (RFC 9605 encryption is deterministic, the nonce is derived from the
/// counter), and it starts with a parsable header carrying that key id and
/// counter (`sframe::header::SframeHeader` round-trips serialization). The
/// frame is `header || ciphertext || tag` with a ciphertext as long as the
/// payload and a 16-byte tag (both AES-GCM suites use 16-byte tags).
/// Success is owed for any payload under the stated bound: key and salt
/// derivation are HKDF expansions of fixed small lengths and cannot fail,
/// the first value of a fresh counter always issues, the `Vec` frame buffer
/// allocates infallibly, and ring's AES-GCM seal refuses only plaintexts
/// beyond its ~2^36-byte limit, far above the bound.
#[verifier::external_body]
pub(crate) fn sframe_encrypt(
    suite: SuiteId,
    kid: u64,
    material: &[u8],
    ctr: u64,
    payload: &[u8],
) -> (r: Option<Vec<u8>>)
    ensures
        r matches Some(f) ==> f@ == frame_bytes(suite, kid, ctr, material@, payload@),
        r matches Some(f) ==> (parsed_header(f@) matches Some(h) && h.0 == kid && h.1 == ctr
            && 1 <= h.2 && f@.len() == h.2 + payload@.len() + 16),
        payload@.len() < 0x1000_0000 ==> r is Some,
{
    let cs = match suite {
        SuiteId::AesGcm128Sha256 => sframe::CipherSuite::AesGcm128Sha256,
        SuiteId::AesGcm256Sha512 => sframe::CipherSuite::AesGcm256Sha512,
    };
    let key = sframe::key::EncryptionKey::derive_from(cs, kid, material).ok()?;
    let mut counter = sframe::frame::MonotonicCounter::with_start_value(ctr, u64::MAX);
    let media = sframe::frame::MediaFrameView::try_new(&mut counter, payload).ok()?;
    let mut buffer: Vec<u8> = Vec::new();
    media.encrypt_into(&key, &mut buffer).ok()?;
    Some(buffer)
}

/// Relies on `sframe::key::DecryptionKey::derive_from` and
/// `sframe::frame::EncryptedFrameView::decrypt_into`: decryption inverts
/// encryption, so a frame the framing library produced under a suite, key id
/// and key material decrypts back to its payload under the same three.
#[verifier::external_body]
pub(crate) fn sframe_decrypt(
    suite: SuiteId,
    kid: u64,
    material: &[u8],
    frame: &[u8],
) -> (r: Option<Vec<u8>>)
    ensures
        r is None ==> forall|c: u64, p: Seq<u8>|
            frame@ != frame_bytes(suite, kid, c, material@, p),
        r matches Some(q) ==> forall|c: u64, p: Seq<u8>|
            frame@ == frame_bytes(suite, kid, c, material@, p) ==> q@ == p,
{
    let cs = match suite {
        SuiteId::AesGcm128Sha256 => sframe::CipherSuite::AesGcm128Sha256,
        SuiteId::AesGcm256Sha512 => sframe::CipherSuite::AesGcm256Sha512,
    };
    let key = sframe::key::DecryptionKey::derive_from(cs, kid, material).ok()?;
    let view = sframe::frame::EncryptedFrameView::try_new(&frame).ok()?;
    let mut buffer: Vec<u8> = Vec::new();
    view.decrypt_into(&key, &mut buffer).ok()?;
    Some(buffer)
}

/// Relies on `sframe::header::SframeHeader::deserialize`, `key_id`, `counter`
/// and `len`: parsing the leading header is a deterministic function of the
/// frame bytes, and a parsed header never claims to be longer than the
/// buffer it was parsed from (the library checks the buffer length).
#[verifier::external_body]
pub(crate) fn sframe_parse_header(frame: &[u8]) -> (r: Option<(u64, u64, usize)>)
    ensures
        r == parsed_header(frame@),
        r matches Some(h) ==> 1 <= h.2 <= frame@.len(),
{
    let header = sframe::header::SframeHeader::deserialize(frame).ok()?;
    Some((header.key_id(), header.counter(), header.len()))
}

/// Relies on `sframe::ratchet::RatchetingKeyMaterial::derive_from`
/// (RFC 9605 5.1): it performs exactly one forward ratchet step on the given
/// material, a deterministic function of the suite and the material alone.
/// The step is an HKDF expansion to the suite's key length (16 or 32
/// bytes), which cannot fail, so the call never does.
#[verifier::external_body]
pub(crate) fn sframe_ratchet(suite: SuiteId, material: &[u8]) -> (r: Vec<u8>)
    ensures
        r@ == ratchet_next(suite, material@),
{
    let cs = match suite {
        SuiteId::AesGcm128Sha256 => sframe::CipherSuite::AesGcm128Sha256,
        SuiteId::AesGcm256Sha512 => sframe::CipherSuite::AesGcm256Sha512,
    };
    let next = sframe::ratchet::RatchetingKeyMaterial::derive_from(cs, material)
        .expect("HKDF expansion to the suite's key length cannot fail");
    next.as_ref().to_vec()
}

} // verus!
