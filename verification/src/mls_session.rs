//! Group-export key provisioning and the session-key wire message.
//!
//! The alternative to the pre-shared-secret client: a group-membership
//! protocol (OpenMLS) is consulted as a secret exporter, once per purpose
//! label, to obtain the audio key, the video key and the seed of the base
//! key identifier. The derived [`MlsSessionKeys`] are shipped from the
//! server role to the client role in a fixed little-endian byte layout,
//! encoded and decoded here; the sockets they travel over belong to the
//! caller.

use vstd::prelude::*;

use crate::errors::SessionError;
use crate::mux::{spec_u32_le, spec_u32_from_le, write_u32_le};

verus! {

/// Session secrets both peers share for one epoch: one 32-byte secret per
/// media type and the base key identifier derived from the exported seed.
pub struct MlsSessionKeys {
    pub epoch: u64,
    pub audio_secret: Vec<u8>,
    pub video_secret: Vec<u8>,
    pub base_kid: u64,
}

/// The eight little-endian bytes of a 64-bit value.
pub open spec fn spec_u64_le(n: u64) -> Seq<u8> {
    seq![
        (n & 0xff) as u8,
        ((n >> 8) & 0xff) as u8,
        ((n >> 16) & 0xff) as u8,
        ((n >> 24) & 0xff) as u8,
        ((n >> 32) & 0xff) as u8,
        ((n >> 40) & 0xff) as u8,
        ((n >> 48) & 0xff) as u8,
        ((n >> 56) & 0xff) as u8,
    ]
}

/// The 64-bit value read back from eight little-endian bytes.
pub open spec fn spec_u64_from_le(b: Seq<u8>) -> u64
    recommends
        b.len() == 8,
{
    (b[0] as u64) | ((b[1] as u64) << 8) | ((b[2] as u64) << 16) | ((b[3] as u64) << 24) | ((
    b[4] as u64) << 32) | ((b[5] as u64) << 40) | ((b[6] as u64) << 48) | ((b[7] as u64) << 56)
}

/// Appends the eight little-endian bytes of `n` to `out`.
pub fn write_u64_le(out: &mut Vec<u8>, n: u64)
    ensures
        final(out)@ == old(out)@ + spec_u64_le(n),
{
    out.push((n & 0xff) as u8);
    out.push(((n >> 8) & 0xff) as u8);
    out.push(((n >> 16) & 0xff) as u8);
    out.push(((n >> 24) & 0xff) as u8);
    out.push(((n >> 32) & 0xff) as u8);
    out.push(((n >> 40) & 0xff) as u8);
    out.push(((n >> 48) & 0xff) as u8);
    out.push(((n >> 56) & 0xff) as u8);
    assert(final(out)@ =~= old(out)@ + spec_u64_le(n));
}

/// Reads a 64-bit little-endian value from the first eight bytes of `b`;
/// nothing if fewer than eight bytes are there. This is also how the
/// 8-byte exported seed is interpreted as a base key identifier.
pub fn read_u64_le(b: &[u8]) -> (r: Option<u64>)
    ensures
        r is Some <==> b@.len() >= 8,
        r matches Some(n) ==> n == spec_u64_from_le(b@.subrange(0, 8)),
{
    if b.len() < 8 {
        return None;
    }
    let n = (b[0] as u64) | ((b[1] as u64) << 8) | ((b[2] as u64) << 16) | ((b[3] as u64) << 24)
        | ((b[4] as u64) << 32) | ((b[5] as u64) << 40) | ((b[6] as u64) << 48) | ((
    b[7] as u64) << 56);
    Some(n)
}

/// Round trip of the 64-bit field: reading the eight little-endian bytes
/// of a value gives the value back.
pub proof fn lemma_u64_le_round_trip(n: u64)
    ensures
        spec_u64_from_le(spec_u64_le(n)) == n,
{
    assert((((n & 0xff) as u8) as u64) | (((((n >> 8) & 0xff) as u8) as u64) << 8) | (((((n >> 16)
        & 0xff) as u8) as u64) << 16) | (((((n >> 24) & 0xff) as u8) as u64) << 24) | (((((n >> 32)
        & 0xff) as u8) as u64) << 32) | (((((n >> 40) & 0xff) as u8) as u64) << 40) | (((((n >> 48)
        & 0xff) as u8) as u64) << 48) | (((((n >> 56) & 0xff) as u8) as u64) << 56) == n)
        by (bit_vector);
}

/// The initial server-to-client message:
/// `epoch:u64-LE || base_kid:u64-LE || len_a:u32-LE || audio || len_v:u32-LE || video`.
pub open spec fn spec_session_keys_bytes(
    epoch: u64,
    base_kid: u64,
    audio: Seq<u8>,
    video: Seq<u8>,
) -> Seq<u8> {
    spec_u64_le(epoch) + spec_u64_le(base_kid) + spec_u32_le(audio.len() as u32) + audio
        + spec_u32_le(video.len() as u32) + video
}

/// What a reader makes of a session-key message: the epoch, base key id
/// and the two secrets, or nothing if the bytes are truncated.
pub open spec fn spec_parse_session_keys(b: Seq<u8>) -> Option<(u64, u64, Seq<u8>, Seq<u8>)> {
    if b.len() < 20 {
        None
    } else {
        let epoch = spec_u64_from_le(b.subrange(0, 8));
        let base_kid = spec_u64_from_le(b.subrange(8, 16));
        let len_a = spec_u32_from_le(b.subrange(16, 20)) as int;
        if b.len() < 24 + len_a {
            None
        } else {
            let audio = b.subrange(20, 20 + len_a);
            let len_v = spec_u32_from_le(b.subrange(20 + len_a, 24 + len_a)) as int;
            if b.len() < 24 + len_a + len_v {
                None
            } else {
                Some((epoch, base_kid, audio, b.subrange(24 + len_a, 24 + len_a + len_v)))
            }
        }
    }
}

/// Encodes the session-key message; refused if a secret's length does not
/// fit its 32-bit length field.
pub fn encode_session_keys(keys: &MlsSessionKeys) -> (r: Option<Vec<u8>>)
    ensures
        r is Some <==> keys.audio_secret@.len() <= u32::MAX && keys.video_secret@.len()
            <= u32::MAX,
        r matches Some(v) ==> v@ == spec_session_keys_bytes(
            keys.epoch,
            keys.base_kid,
            keys.audio_secret@,
            keys.video_secret@,
        ),
{
    if keys.audio_secret.len() > (u32::MAX as usize) || keys.video_secret.len() > (
    u32::MAX as usize) {
        return None;
    }
    let mut out: Vec<u8> = Vec::new();
    write_u64_le(&mut out, keys.epoch);
    write_u64_le(&mut out, keys.base_kid);
    write_u32_le(&mut out, keys.audio_secret.len() as u32);
    append_bytes(&mut out, keys.audio_secret.as_slice());
    write_u32_le(&mut out, keys.video_secret.len() as u32);
    append_bytes(&mut out, keys.video_secret.as_slice());
    proof {
        assert(out@ =~= spec_session_keys_bytes(
            keys.epoch,
            keys.base_kid,
            keys.audio_secret@,
            keys.video_secret@,
        ));
    }
    Some(out)
}

/// Appends all of `src` to `out`.
fn append_bytes(out: &mut Vec<u8>, src: &[u8])
    ensures
        final(out)@ == old(out)@ + src@,
{
    let mut i: usize = 0;
    while i < src.len()
        invariant
            i <= src@.len(),
            out@ == old(out)@ + src@.subrange(0, i as int),
        decreases src@.len() - i,
    {
        out.push(src[i]);
        assert(out@ =~= old(out)@ + src@.subrange(0, i + 1 as int));
        i = i + 1;
    }
    assert(final(out)@ =~= old(out)@ + src@);
}

/// Copies `count` bytes of `src` starting at `from` into a fresh vector.
fn copy_range(src: &[u8], from: usize, count: usize) -> (r: Vec<u8>)
    requires
        from + count <= src@.len(),
    ensures
        r@ == src@.subrange(from as int, from + count),
{
    let src_len = src.len();
    let mut out: Vec<u8> = Vec::new();
    let mut i: usize = 0;
    while i < count
        invariant
            i <= count,
            from + count <= src@.len(),
            src_len == src@.len(),
            out@ == src@.subrange(from as int, from + i),
        decreases count - i,
    {
        out.push(src[from + i]);
        assert(out@ =~= src@.subrange(from as int, from + (i + 1)));
        i = i + 1;
    }
    out
}

/// Decodes a session-key message, the inverse of [`encode_session_keys`].
pub fn decode_session_keys(b: &[u8]) -> (r: Option<MlsSessionKeys>)
    ensures
        r is Some <==> spec_parse_session_keys(b@) is Some,
        r matches Some(k) ==> (spec_parse_session_keys(b@) matches Some(p) && k.epoch == p.0
            && k.base_kid == p.1 && k.audio_secret@ == p.2 && k.video_secret@ == p.3),
{
    if b.len() < 20 {
        return None;
    }
    let epoch = read_u64_le(b).unwrap();
    proof {
        assert(b@.subrange(0, 8) =~= b@.subrange(0, 8));
    }
    let base_kid = match read_u64_le_at(b, 8) {
        Some(n) => n,
        None => {
            return None;
        },
    };
    let len_a_u32 = match read_u32_le_at(b, 16) {
        Some(n) => n,
        None => {
            return None;
        },
    };
    let len_a = len_a_u32 as usize;
    if b.len() < 24 || len_a > b.len() - 24 {
        return None;
    }
    let audio = copy_range(b, 20, len_a);
    let len_v_u32 = match read_u32_le_at(b, 20 + len_a) {
        Some(n) => n,
        None => {
            return None;
        },
    };
    let len_v = len_v_u32 as usize;
    if len_v > b.len() - 24 - len_a {
        return None;
    }
    let video = copy_range(b, 24 + len_a, len_v);
    Some(MlsSessionKeys { epoch, audio_secret: audio, video_secret: video, base_kid })
}

/// Reads a 64-bit little-endian value at byte offset `at`.
fn read_u64_le_at(b: &[u8], at: usize) -> (r: Option<u64>)
    ensures
        r is Some <==> at + 8 <= b@.len(),
        r matches Some(n) ==> n == spec_u64_from_le(b@.subrange(at as int, at + 8)),
{
    if b.len() < 8 || at > b.len() - 8 {
        return None;
    }
    let n = (b[at] as u64) | ((b[at + 1] as u64) << 8) | ((b[at + 2] as u64) << 16) | ((b[at
        + 3] as u64) << 24) | ((b[at + 4] as u64) << 32) | ((b[at + 5] as u64) << 40) | ((b[at
        + 6] as u64) << 48) | ((b[at + 7] as u64) << 56);
    Some(n)
}

/// Reads a 32-bit little-endian value at byte offset `at`.
fn read_u32_le_at(b: &[u8], at: usize) -> (r: Option<u32>)
    ensures
        r is Some <==> at + 4 <= b@.len(),
        r matches Some(n) ==> n == spec_u32_from_le(b@.subrange(at as int, at + 4)),
{
    if b.len() < 4 || at > b.len() - 4 {
        return None;
    }
    let n = (b[at] as u32) | ((b[at + 1] as u32) << 8) | ((b[at + 2] as u32) << 16) | ((b[at
        + 3] as u32) << 24);
    Some(n)
}

#[verifier::external_type_specification]
#[verifier::external_body]
pub struct ExMlsGroup(openmls::group::MlsGroup);

#[verifier::external_type_specification]
#[verifier::external_body]
pub struct ExRustCrypto(openmls_rust_crypto::RustCrypto);

/// Relies on openmls's `MlsGroup::export_secret` (RFC 9420 exporter): on
/// success the exported secret has exactly the requested length (it is
/// HKDF output of that length). Which bytes come out depends on the
/// group's secret state, so nothing more is promised.
#[verifier::external_body]
fn export_group_secret(
    group: &openmls::group::MlsGroup,
    crypto: &openmls_rust_crypto::RustCrypto,
    label: &str,
    len: usize,
) -> (r: Option<Vec<u8>>)
    ensures
        r matches Some(v) ==> v@.len() == len,
{
    group.export_secret(crypto, label, &[], len).ok()
}

/// Relies on openmls's `MlsGroup::epoch`: the group's current epoch as a
/// plain number.
#[verifier::external_body]
fn group_epoch_u64(group: &openmls::group::MlsGroup) -> u64 {
    group.epoch().as_u64()
}

/// Derives the session secrets of the group's current epoch through its
/// secret exporter: one fixed label per purpose, 32 bytes per media key
/// and an 8-byte seed read as the little-endian base key identifier.
/// Fails with [`SessionError::ProvisioningFailure`] if the exporter
/// refuses (e.g. the group is no longer active).
pub fn derive_session_keys(
    group: &openmls::group::MlsGroup,
    crypto: &openmls_rust_crypto::RustCrypto,
) -> (r: Result<MlsSessionKeys, SessionError>)
    ensures
        r matches Ok(k) ==> k.audio_secret@.len() == 32 && k.video_secret@.len() == 32,
        r is Err ==> r == Result::<MlsSessionKeys, SessionError>::Err(
            SessionError::ProvisioningFailure,
        ),
{
    let audio = match export_group_secret(group, crypto, "SFRAME_AUDIO", 32) {
        Some(v) => v,
        None => {
            return Err(SessionError::ProvisioningFailure);
        },
    };
    let video = match export_group_secret(group, crypto, "SFRAME_VIDEO", 32) {
        Some(v) => v,
        None => {
            return Err(SessionError::ProvisioningFailure);
        },
    };
    let seed = match export_group_secret(group, crypto, "SFRAME_KID_SEED", 8) {
        Some(v) => v,
        None => {
            return Err(SessionError::ProvisioningFailure);
        },
    };
    let base_kid = read_u64_le(seed.as_slice()).unwrap();
    let epoch = group_epoch_u64(group);
    Ok(MlsSessionKeys { epoch, audio_secret: audio, video_secret: video, base_kid })
}

/// The session-key message round-trips: decoding what was encoded gives
/// the epoch, base key id and both secrets back unchanged.
pub proof fn lemma_session_keys_round_trip(
    epoch: u64,
    base_kid: u64,
    audio: Seq<u8>,
    video: Seq<u8>,
)
    requires
        audio.len() <= u32::MAX,
        video.len() <= u32::MAX,
    ensures
        spec_parse_session_keys(spec_session_keys_bytes(epoch, base_kid, audio, video)) == Some(
            (epoch, base_kid, audio, video),
        ),
{
    let whole = spec_session_keys_bytes(epoch, base_kid, audio, video);
    let la = audio.len() as int;
    let lv = video.len() as int;
    lemma_u64_le_round_trip(epoch);
    lemma_u64_le_round_trip(base_kid);
    crate::mux::lemma_u32_le_round_trip(audio.len() as u32);
    crate::mux::lemma_u32_le_round_trip(video.len() as u32);
    assert(whole.len() == 24 + la + lv);
    assert(whole.subrange(0, 8) =~= spec_u64_le(epoch));
    assert(whole.subrange(8, 16) =~= spec_u64_le(base_kid));
    assert(whole.subrange(16, 20) =~= spec_u32_le(audio.len() as u32));
    assert(whole.subrange(20, 20 + la) =~= audio);
    assert(whole.subrange(20 + la, 24 + la) =~= spec_u32_le(video.len() as u32));
    assert(whole.subrange(24 + la, 24 + la + lv) =~= video);
}

} // verus!
