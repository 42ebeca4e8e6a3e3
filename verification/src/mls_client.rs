//! Pre-shared-secret key provisioning.
//!
//! A lightweight local client that stands in for a full group-membership
//! protocol: it keeps an identity, a numeric room id, a logical epoch and an
//! externally provided pre-shared secret, and derives the 32-byte master key
//! of the framing layer as `HKDF(psk, "sframe/master|room:<id>|epoch:<n>")`.
//! The info-string format is part of the wire contract: both peers must
//! build it byte for byte alike.

use vstd::prelude::*;

use crate::errors::SessionError;
use base64::Engine;
use sha2::Digest;
use vstd::utf8::encode_utf8;

verus! {

/// The 32 bytes HKDF-SHA256 (no salt) expands from the given input key
/// material and info string.
pub uninterp spec fn hkdf_sha256_okm32(ikm: Seq<u8>, info: Seq<u8>) -> Seq<u8>;

/// The unpadded standard-alphabet base64 text encoding the given bytes.
pub uninterp spec fn b64_nopad_chars(bytes: Seq<u8>) -> Seq<char>;

/// What standard-alphabet base64 decoding makes of the given text bytes:
/// the decoded bytes, or nothing if the text is not valid base64.
pub uninterp spec fn b64_decoded(text: Seq<u8>) -> Option<Seq<u8>>;

/// Relies on `hkdf::Hkdf::<sha2::Sha256>::new` (no salt) and `expand`: the
/// output key material is a function of the input key material and the info
/// bytes alone, and fills the requested 32 bytes exactly (RFC 5869; expand
/// cannot fail for a 32-byte output).
#[verifier::external_body]
fn hkdf_expand32(ikm: &[u8], info: &[u8]) -> (r: Vec<u8>)
    ensures
        r@ == hkdf_sha256_okm32(ikm@, info@),
        r@.len() == 32,
{
    let hk = hkdf::Hkdf::<sha2::Sha256>::new(None, ikm);
    let mut okm = [0u8; 32];
    hk.expand(info, &mut okm).expect("32 bytes is a valid HKDF-SHA256 output length");
    okm.to_vec()
}

/// Relies on base64's `STANDARD_NO_PAD` engine: encoding is a function of
/// the input bytes alone, and an empty input encodes to the empty string.
#[verifier::external_body]
fn b64_encode_nopad(bytes: &[u8]) -> (r: String)
    ensures
        r@ == b64_nopad_chars(bytes@),
        bytes@.len() == 0 ==> r@.len() == 0,
{
    base64::engine::general_purpose::STANDARD_NO_PAD.encode(bytes)
}

/// Relies on base64's `STANDARD` engine: decoding is a function of the
/// input bytes alone, and an empty input decodes to the empty byte string.
#[verifier::external_body]
fn b64_decode(text: &[u8]) -> (r: Option<Vec<u8>>)
    ensures
        r matches Some(v) ==> b64_decoded(text@) == Some(v@),
        b64_decoded(text@) is Some ==> r is Some,
{
    base64::engine::general_purpose::STANDARD.decode(text).ok()
}

/// One-byte whitespace: the ASCII whitespace characters (tab, line feed,
/// vertical tab, form feed, carriage return, space).
pub open spec fn is_ws1(b: u8) -> bool {
    b == 9 || b == 10 || b == 11 || b == 12 || b == 13 || b == 32
}

/// Two-byte UTF-8 whitespace: NEXT LINE and NO-BREAK SPACE.
pub open spec fn is_ws2(a: u8, b: u8) -> bool {
    a == 0xC2 && (b == 0x85 || b == 0xA0)
}

/// Three-byte UTF-8 whitespace: OGHAM SPACE MARK, the EN QUAD..HAIR SPACE
/// range, LINE SEPARATOR, PARAGRAPH SEPARATOR, NARROW NO-BREAK SPACE,
/// MEDIUM MATHEMATICAL SPACE and IDEOGRAPHIC SPACE.
pub open spec fn is_ws3(a: u8, b: u8, c: u8) -> bool {
    (a == 0xE1 && b == 0x9A && c == 0x80) || (a == 0xE2 && b == 0x80 && (0x80 <= c <= 0x8A || c
        == 0xA8 || c == 0xA9 || c == 0xAF)) || (a == 0xE2 && b == 0x81 && c == 0x9F) || (a == 0xE3
        && b == 0x80 && c == 0x80)
}

/// Byte length of the whitespace character at the head of `s`, 0 if none.
/// Together the three forms are exactly the UTF-8 encodings of Unicode
/// White_Space; their lead bytes differ, so the cases cannot overlap, and
/// in valid UTF-8 a match is a whole character (no matched lead byte is a
/// continuation byte).
pub open spec fn spec_ws_head(s: Seq<u8>) -> nat {
    if s.len() >= 3 && is_ws3(s[0], s[1], s[2]) {
        3
    } else if s.len() >= 2 && is_ws2(s[0], s[1]) {
        2
    } else if s.len() >= 1 && is_ws1(s[0]) {
        1
    } else {
        0
    }
}

/// Byte length of the whitespace character at the tail of `s`, 0 if none.
/// In valid UTF-8 a matched tail is a whole character: its first byte is a
/// lead byte, never the continuation byte a longer character would put
/// there.
pub open spec fn spec_ws_tail(s: Seq<u8>) -> nat {
    if s.len() >= 3 && is_ws3(s[s.len() - 3], s[s.len() - 2], s[s.len() - 1]) {
        3
    } else if s.len() >= 2 && is_ws2(s[s.len() - 2], s[s.len() - 1]) {
        2
    } else if s.len() >= 1 && is_ws1(s[s.len() - 1]) {
        1
    } else {
        0
    }
}

/// The sequence with leading whitespace characters removed.
pub open spec fn spec_trim_start(s: Seq<u8>) -> Seq<u8>
    decreases s.len(),
{
    if spec_ws_head(s) > 0 {
        spec_trim_start(s.skip(spec_ws_head(s) as int))
    } else {
        s
    }
}

/// The sequence with trailing whitespace characters removed.
pub open spec fn spec_trim_end(s: Seq<u8>) -> Seq<u8>
    decreases s.len(),
{
    if spec_ws_tail(s) > 0 {
        spec_trim_end(s.take(s.len() - spec_ws_tail(s) as int))
    } else {
        s
    }
}

/// The sequence with leading and trailing whitespace characters removed.
pub open spec fn spec_trim(s: Seq<u8>) -> Seq<u8> {
    spec_trim_end(spec_trim_start(s))
}

/// Tests a byte for one-byte whitespace.
fn ws1_byte(b: u8) -> (r: bool)
    ensures
        r == is_ws1(b),
{
    b == 9 || b == 10 || b == 11 || b == 12 || b == 13 || b == 32
}

/// Tests a byte pair for two-byte whitespace.
fn ws2_bytes(a: u8, b: u8) -> (r: bool)
    ensures
        r == is_ws2(a, b),
{
    a == 0xC2 && (b == 0x85 || b == 0xA0)
}

/// Tests a byte triple for three-byte whitespace.
fn ws3_bytes(a: u8, b: u8, c: u8) -> (r: bool)
    ensures
        r == is_ws3(a, b, c),
{
    (a == 0xE1 && b == 0x9A && c == 0x80) || (a == 0xE2 && b == 0x80 && (0x80 <= c && c <= 0x8A
        || c == 0xA8 || c == 0xA9 || c == 0xAF)) || (a == 0xE2 && b == 0x81 && c == 0x9F) || (a
        == 0xE3 && b == 0x80 && c == 0x80)
}

/// Measures the whitespace character starting at byte offset `i`.
fn ws_head_at(s: &[u8], i: usize) -> (k: usize)
    requires
        i <= s@.len(),
    ensures
        k == spec_ws_head(s@.skip(i as int)),
        i + k <= s@.len(),
{
    let n = s.len();
    let rem = n - i;
    proof {
        assert(s@.skip(i as int).len() == rem);
        if rem >= 1 {
            assert(s@.skip(i as int)[0] == s@[i as int]);
        }
        if rem >= 2 {
            assert(s@.skip(i as int)[1] == s@[i + 1]);
        }
        if rem >= 3 {
            assert(s@.skip(i as int)[2] == s@[i + 2]);
        }
    }
    if rem >= 3 && ws3_bytes(s[i], s[i + 1], s[i + 2]) {
        3
    } else if rem >= 2 && ws2_bytes(s[i], s[i + 1]) {
        2
    } else if rem >= 1 && ws1_byte(s[i]) {
        1
    } else {
        0
    }
}

/// Measures the whitespace character ending at byte offset `end`.
fn ws_tail_at(s: &[u8], start: usize, end: usize) -> (k: usize)
    requires
        start <= end <= s@.len(),
    ensures
        k == spec_ws_tail(s@.subrange(start as int, end as int)),
        k <= end - start,
{
    let rem = end - start;
    proof {
        assert(s@.subrange(start as int, end as int).len() == rem);
        if rem >= 1 {
            assert(s@.subrange(start as int, end as int)[rem - 1] == s@[end - 1]);
        }
        if rem >= 2 {
            assert(s@.subrange(start as int, end as int)[rem - 2] == s@[end - 2]);
        }
        if rem >= 3 {
            assert(s@.subrange(start as int, end as int)[rem - 3] == s@[end - 3]);
        }
    }
    if rem >= 3 && ws3_bytes(s[end - 3], s[end - 2], s[end - 1]) {
        3
    } else if rem >= 2 && ws2_bytes(s[end - 2], s[end - 1]) {
        2
    } else if rem >= 1 && ws1_byte(s[end - 1]) {
        1
    } else {
        0
    }
}

/// Removes leading and trailing whitespace characters - the same set
/// `str::trim` removes, matched on the UTF-8 bytes - from a byte string.
pub fn trim_whitespace(s: &[u8]) -> (r: Vec<u8>)
    ensures
        r@ == spec_trim(s@),
{
    let n = s.len();
    let mut start: usize = 0;
    proof {
        assert(s@.skip(0) =~= s@);
    }
    while ws_head_at(s, start) > 0
        invariant
            start <= s@.len(),
            n == s@.len(),
            spec_trim_start(s@) == spec_trim_start(s@.skip(start as int)),
        decreases s@.len() - start,
    {
        let k = ws_head_at(s, start);
        proof {
            assert(s@.skip(start as int).skip(k as int) =~= s@.skip(start + k));
        }
        start = start + k;
    }
    proof {
        assert(spec_trim_start(s@) == s@.skip(start as int));
    }
    let mut end: usize = s.len();
    while ws_tail_at(s, start, end) > 0
        invariant
            start <= end <= s@.len(),
            spec_trim_start(s@) == s@.skip(start as int),
            spec_trim_end(s@.skip(start as int)) == spec_trim_end(
                s@.subrange(start as int, end as int),
            ),
        decreases end,
    {
        let k = ws_tail_at(s, start, end);
        proof {
            assert(s@.subrange(start as int, end as int).take(end - start - k) =~= s@.subrange(
                start as int,
                end - k,
            ));
        }
        end = end - k;
    }
    proof {
        assert(spec_trim(s@) == s@.subrange(start as int, end as int));
    }
    let mut out: Vec<u8> = Vec::new();
    let mut i: usize = start;
    while i < end
        invariant
            start <= i <= end <= s@.len(),
            out@ == s@.subrange(start as int, i as int),
        decreases end - i,
    {
        out.push(s[i]);
        assert(out@ =~= s@.subrange(start as int, i + 1 as int));
        i = i + 1;
    }
    proof {
        assert(out@ =~= s@.subrange(start as int, end as int));
    }
    out
}

/// The decimal digits of `n`, most significant first, as ASCII bytes.
pub open spec fn spec_dec_digits(n: nat) -> Seq<u8>
    decreases n,
{
    if n < 10 {
        seq![(48 + n) as u8]
    } else {
        spec_dec_digits(n / 10).push((48 + n % 10) as u8)
    }
}

/// Writes `n` in decimal ASCII.
pub fn u64_dec_bytes(n: u64) -> (r: Vec<u8>)
    ensures
        r@ == spec_dec_digits(n as nat),
    decreases n,
{
    if n < 10 {
        let mut v: Vec<u8> = Vec::new();
        v.push(48 + (n as u8));
        proof {
            assert(v@ =~= spec_dec_digits(n as nat));
        }
        v
    } else {
        let mut v = u64_dec_bytes(n / 10);
        v.push(48 + ((n % 10) as u8));
        v
    }
}

/// The info bytes `"sframe/master|room:<room_id>|epoch:<epoch>"` fed to the
/// master-key derivation.
pub open spec fn spec_master_info(room_id: u32, epoch: u64) -> Seq<u8> {
    seq![
        115u8, 102u8, 114u8, 97u8, 109u8, 101u8, 47u8, 109u8, 97u8, 115u8, 116u8, 101u8, 114u8, 124u8, 114u8,
        111u8, 111u8, 109u8, 58u8,
    ] + spec_dec_digits(room_id as nat) + seq![124u8, 101u8, 112u8, 111u8, 99u8, 104u8, 58u8]
        + spec_dec_digits(epoch as nat)
}

/// Builds the master-key info bytes for a room and epoch.
pub fn master_info(room_id: u32, epoch: u64) -> (r: Vec<u8>)
    ensures
        r@ == spec_master_info(room_id, epoch),
{
    let mut v: Vec<u8> = Vec::new();
    v.push(115u8);
    v.push(102u8);
    v.push(114u8);
    v.push(97u8);
    v.push(109u8);
    v.push(101u8);
    v.push(47u8);
    v.push(109u8);
    v.push(97u8);
    v.push(115u8);
    v.push(116u8);
    v.push(101u8);
    v.push(114u8);
    v.push(124u8);
    v.push(114u8);
    v.push(111u8);
    v.push(111u8);
    v.push(109u8);
    v.push(58u8);
    let room = u64_dec_bytes(room_id as u64);
    let mut i: usize = 0;
    while i < room.len()
        invariant
            i <= room@.len(),
            v@ == seq![
                115u8, 102u8, 114u8, 97u8, 109u8, 101u8, 47u8, 109u8, 97u8, 115u8, 116u8, 101u8, 114u8, 124u8,
                114u8, 111u8, 111u8, 109u8, 58u8,
            ] + room@.subrange(0, i as int),
        decreases room@.len() - i,
    {
        v.push(room[i]);
        assert(v@ =~= seq![
            115u8, 102u8, 114u8, 97u8, 109u8, 101u8, 47u8, 109u8, 97u8, 115u8, 116u8, 101u8, 114u8, 124u8,
            114u8, 111u8, 111u8, 109u8, 58u8,
        ] + room@.subrange(0, i + 1 as int));
        i = i + 1;
    }
    proof {
        assert(room@.subrange(0, room@.len() as int) =~= room@);
        assert(room@ == spec_dec_digits(room_id as nat));
    }
    v.push(124u8);
    v.push(101u8);
    v.push(112u8);
    v.push(111u8);
    v.push(99u8);
    v.push(104u8);
    v.push(58u8);
    let ghost mid = seq![
        115u8, 102u8, 114u8, 97u8, 109u8, 101u8, 47u8, 109u8, 97u8, 115u8, 116u8, 101u8, 114u8, 124u8, 114u8,
        111u8, 111u8, 109u8, 58u8,
    ] + spec_dec_digits(room_id as nat) + seq![124u8, 101u8, 112u8, 111u8, 99u8, 104u8, 58u8];
    proof {
        assert(v@ =~= mid);
    }
    let ep = u64_dec_bytes(epoch);
    let mut j: usize = 0;
    while j < ep.len()
        invariant
            j <= ep@.len(),
            v@ == mid + ep@.subrange(0, j as int),
        decreases ep@.len() - j,
    {
        v.push(ep[j]);
        assert(v@ =~= mid + ep@.subrange(0, (j + 1) as int));
        j = j + 1;
    }
    proof {
        assert(ep@.subrange(0, ep@.len() as int) =~= ep@);
        assert(v@ =~= spec_master_info(room_id, epoch));
    }
    v
}

/// What the client makes of a base64 pre-shared secret handed to it: the
/// decoded secret bytes, or nothing if the text is empty after trimming,
/// undecodable, or decodes to the empty secret.
pub open spec fn spec_psk_of(text: Seq<char>) -> Option<Seq<u8>> {
    let t = spec_trim(encode_utf8(text));
    if t.len() == 0 {
        None
    } else {
        match b64_decoded(t) {
            Some(v) => if v.len() == 0 {
                None
            } else {
                Some(v)
            },
            None => None,
        }
    }
}

/// Local pre-shared-secret provisioning client: identity, room, logical
/// epoch and the secret that the master key is derived from. The secret
/// never leaves the client; only derived key material does.
pub struct MlsClient {
    identity: String,
    room_id: u32,
    epoch: u64,
    external_psk: Option<Vec<u8>>,
}

impl MlsClient {
    /// The client's identity string.
    pub closed spec fn spec_identity(self) -> Seq<char> {
        self.identity@
    }

    /// The client's room id.
    pub closed spec fn spec_room_id(self) -> u32 {
        self.room_id
    }

    /// The client's logical epoch.
    pub closed spec fn spec_epoch(self) -> u64 {
        self.epoch
    }

    /// The installed pre-shared secret, if any.
    pub closed spec fn spec_psk(self) -> Option<Seq<u8>> {
        match self.external_psk {
            Some(v) => Some(v@),
            None => None,
        }
    }

    /// Creates a client for an identity and room; the epoch starts at 0
    /// (not yet active) and no secret is installed.
    pub fn new(identity: String, room_id: u32) -> (r: MlsClient)
        ensures
            r.spec_identity() == identity@,
            r.spec_room_id() == room_id,
            r.spec_epoch() == 0,
            r.spec_psk() is None,
    {
        MlsClient { identity, room_id, epoch: 0, external_psk: None }
    }

    /// Installs the shared secret from its base64 text. Rejected if the
    /// text is empty after trimming whitespace, is not valid
    /// standard base64, or decodes to an empty secret.
    pub fn set_external_psk_b64(&mut self, psk_b64: String) -> (r: Result<(), SessionError>)
        ensures
            r is Ok <==> spec_psk_of(psk_b64@) is Some,
            r is Err ==> r == Result::<(), SessionError>::Err(SessionError::ProvisioningFailure)
                && *final(self) == *old(self),
            r is Ok ==> final(self).spec_psk() == spec_psk_of(psk_b64@)
                && final(self).spec_identity() == old(self).spec_identity()
                && final(self).spec_room_id() == old(self).spec_room_id()
                && final(self).spec_epoch() == old(self).spec_epoch(),
    {
        let bytes = psk_b64.as_str().as_bytes();
        let trimmed = trim_whitespace(bytes);
        if trimmed.len() == 0 {
            return Err(SessionError::ProvisioningFailure);
        }
        match b64_decode(trimmed.as_slice()) {
            None => Err(SessionError::ProvisioningFailure),
            Some(decoded) => {
                if decoded.len() == 0 {
                    Err(SessionError::ProvisioningFailure)
                } else {
                    self.external_psk = Some(decoded);
                    Ok(())
                }
            },
        }
    }

    /// Sets the logical epoch directly.
    pub fn set_epoch(&mut self, epoch: u64)
        ensures
            final(self).spec_epoch() == epoch,
            final(self).spec_identity() == old(self).spec_identity(),
            final(self).spec_room_id() == old(self).spec_room_id(),
            final(self).spec_psk() == old(self).spec_psk(),
    {
        self.epoch = epoch;
    }

    /// Advances the epoch by one (saturating) and returns the new value.
    pub fn bump_epoch(&mut self) -> (r: u64)
        ensures
            final(self).spec_epoch() == if old(self).spec_epoch() == u64::MAX {
                u64::MAX
            } else {
                (old(self).spec_epoch() + 1) as u64
            },
            r == final(self).spec_epoch(),
            final(self).spec_identity() == old(self).spec_identity(),
            final(self).spec_room_id() == old(self).spec_room_id(),
            final(self).spec_psk() == old(self).spec_psk(),
    {
        self.epoch = if self.epoch == u64::MAX {
            u64::MAX
        } else {
            self.epoch + 1
        };
        self.epoch
    }

    /// The current epoch.
    pub fn epoch_u64(&self) -> (r: u64)
        ensures
            r == self.spec_epoch(),
    {
        self.epoch
    }

    /// True exactly when a secret is installed and the epoch is active
    /// (greater than zero).
    pub fn has_group(&self) -> (r: bool)
        ensures
            r == (self.spec_psk() is Some && self.spec_epoch() > 0),
    {
        self.external_psk.is_some() && self.epoch > 0
    }

    /// Derives the 32-byte framing master key for the current room and
    /// epoch and returns it in unpadded base64. Rejected exactly when no
    /// secret is installed or the epoch is still 0.
    pub fn export_sframe_master_b64(&self) -> (r: Result<String, SessionError>)
        ensures
            r is Ok <==> (self.spec_psk() is Some && self.spec_epoch() > 0),
            r is Err ==> r == Result::<String, SessionError>::Err(
                SessionError::ProvisioningFailure,
            ),
            r matches Ok(s) ==> (self.spec_psk() matches Some(psk) && s@ == b64_nopad_chars(
                hkdf_sha256_okm32(psk, spec_master_info(self.spec_room_id(), self.spec_epoch())),
            )),
    {
        match &self.external_psk {
            None => Err(SessionError::ProvisioningFailure),
            Some(psk) => {
                if self.epoch == 0 {
                    return Err(SessionError::ProvisioningFailure);
                }
                let info = master_info(self.room_id, self.epoch);
                let okm = hkdf_expand32(psk.as_slice(), info.as_slice());
                Ok(b64_encode_nopad(okm.as_slice()))
            },
        }
    }

    /// The client's identity, for logging.
    pub fn identity(&self) -> (r: &str)
        ensures
            r@ == self.spec_identity(),
    {
        self.identity.as_str()
    }

    /// The client's room id.
    pub fn room_id(&self) -> (r: u32)
        ensures
            r == self.spec_room_id(),
    {
        self.room_id
    }
}

/// The SHA-256 digest of the given bytes.
pub uninterp spec fn sha256_digest(data: Seq<u8>) -> Seq<u8>;

/// Relies on sha2's `Sha256`: the digest is a function of the input bytes
/// alone and is exactly 32 bytes long.
#[verifier::external_body]
fn sha256(data: &[u8]) -> (r: Vec<u8>)
    ensures
        r@ == sha256_digest(data@),
        r@.len() == 32,
{
    let mut hasher = sha2::Sha256::new();
    hasher.update(data);
    hasher.finalize().to_vec()
}

/// Joins two byte strings.
fn concat_bytes(a: &[u8], b: &[u8]) -> (r: Vec<u8>)
    ensures
        r@ == a@ + b@,
{
    let mut out: Vec<u8> = Vec::new();
    let mut i: usize = 0;
    while i < a.len()
        invariant
            i <= a@.len(),
            out@ == a@.subrange(0, i as int),
        decreases a@.len() - i,
    {
        out.push(a[i]);
        assert(out@ =~= a@.subrange(0, i + 1 as int));
        i = i + 1;
    }
    proof {
        assert(out@ =~= a@);
    }
    let mut j: usize = 0;
    while j < b.len()
        invariant
            j <= b@.len(),
            out@ == a@ + b@.subrange(0, j as int),
        decreases b@.len() - j,
    {
        out.push(b[j]);
        assert(out@ =~= a@ + b@.subrange(0, j + 1 as int));
        j = j + 1;
    }
    proof {
        assert(out@ =~= a@ + b@);
    }
    out
}

/// Single-round stand-in derivation for demo handshakes: the first
/// `min(len, 32)` output bytes are the SHA-256 digest of `master || label`,
/// the remainder (if a longer output is asked for) is zero-filled.
pub fn hkdf_like(master: &[u8], label: &[u8], len: usize) -> (r: Vec<u8>)
    ensures
        r@.len() == len,
        forall|i: int|
            0 <= i < len && i < 32 ==> r@[i] == sha256_digest(master@ + label@)[i],
        forall|i: int| 32 <= i < len ==> r@[i] == 0,
{
    let input = concat_bytes(master, label);
    let digest = sha256(input.as_slice());
    let mut out: Vec<u8> = Vec::new();
    let mut i: usize = 0;
    while i < len
        invariant
            i <= len,
            out@.len() == i,
            digest@ == sha256_digest(master@ + label@),
            digest@.len() == 32,
            forall|k: int| 0 <= k < i && k < 32 ==> out@[k] == digest@[k],
            forall|k: int| 32 <= k < i ==> out@[k] == 0,
        decreases len - i,
    {
        if i < 32 {
            out.push(digest[i]);
        } else {
            out.push(0);
        }
        i = i + 1;
    }
    out
}

} // verus!
