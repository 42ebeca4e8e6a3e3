//! Key-identifier (KID) allocation.
//!
//! A 64-bit key identifier is partitioned into three contiguous bit fields,
//! low to high: the epoch counter, the member index and the context
//! identifier, with the widths of the two low fields configurable. On top of
//! that, a per-sender audio/video pair scheme maps a shared base id and a
//! sender index onto disjoint identifier pairs.

use vstd::prelude::*;

verus! {

/// Field widths for the composed key identifier: `epoch_bits` low bits carry
/// the epoch, the next `member_bits` bits the member index and the remaining
/// high bits the context identifier. At least one bit is left for the context.
#[derive(Clone, Copy, Debug, PartialEq, Eq, Structural)]
pub struct KidBitRange {
    pub epoch_bits: u8,
    pub member_bits: u8,
}

impl KidBitRange {
    /// The widths fit into a 64-bit identifier with room for the context.
    pub open spec fn wf(self) -> bool {
        self.epoch_bits + self.member_bits <= 63
    }

    /// Builds a bit range; fails if no bit would be left for the context id.
    pub fn new(epoch_bits: u8, member_bits: u8) -> (r: Option<KidBitRange>)
        ensures
            r matches Some(br) ==> br.epoch_bits == epoch_bits && br.member_bits == member_bits
                && br.wf(),
            r is None <==> epoch_bits + member_bits > 63,
    {
        if epoch_bits <= 63 && member_bits <= 63 - epoch_bits {
            Some(KidBitRange { epoch_bits, member_bits })
        } else {
            None
        }
    }
}

/// The composed identifier: context in the high bits, member index in the
/// middle, the low bits of the epoch at the bottom.
pub open spec fn spec_compose_kid(ctx: u64, epoch: u64, member: u64, r: KidBitRange) -> u64 {
    ((ctx << ((r.epoch_bits + r.member_bits) as u64)) | (member << (r.epoch_bits as u64))) | (
    epoch & low_mask(r.epoch_bits))
}

/// Mask selecting the `bits` least significant bits.
pub open spec fn low_mask(bits: u8) -> u64 {
    if bits >= 64 {
        0xffff_ffff_ffff_ffffu64
    } else {
        ((1u64 << (bits as u64)) - 1) as u64
    }
}

/// Composes a key identifier from a (context, epoch, member) triple.
///
/// The member index and the context id must fit their configured widths,
/// otherwise the composition is rejected; of the epoch only the configured
/// least significant bits are encoded, so two epochs differing only above
/// that width map to the same identifier by design.
pub fn compose_kid(ctx: u64, epoch: u64, member: u64, r: KidBitRange) -> (res: Option<u64>)
    requires
        r.wf(),
    ensures
        res matches Some(kid) ==> kid == spec_compose_kid(ctx, epoch, member, r),
        res is Some <==> member <= low_mask(r.member_bits) && ctx <= low_mask(
            (63 - r.epoch_bits - r.member_bits + 1) as u8),
{
    let field_bits: u8 = r.epoch_bits + r.member_bits;
    let ctx_bits: u8 = 64 - field_bits;
    let member_max: u64 = mask_of(r.member_bits);
    let ctx_max: u64 = mask_of(ctx_bits);
    if member > member_max || ctx > ctx_max {
        return None;
    }
    let epoch_low: u64 = epoch & mask_of(r.epoch_bits);
    Some((ctx << (field_bits as u64)) | (member << (r.epoch_bits as u64)) | epoch_low)
}

/// Computes `low_mask(bits)` executably.
pub fn mask_of(bits: u8) -> (r: u64)
    ensures
        r == low_mask(bits),
{
    if bits >= 64 {
        0xffff_ffff_ffff_ffffu64
    } else {
        let b: u64 = bits as u64;
        assert(1u64 << b >= 1) by (bit_vector)
            requires
                b < 64,
        ;
        (1u64 << b) - 1
    }
}

/// The context field read back from a composed identifier.
pub open spec fn spec_kid_context(kid: u64, r: KidBitRange) -> u64 {
    kid >> ((r.epoch_bits + r.member_bits) as u64)
}

/// The member field read back from a composed identifier.
pub open spec fn spec_kid_member(kid: u64, r: KidBitRange) -> u64 {
    (kid >> (r.epoch_bits as u64)) & low_mask(r.member_bits)
}

/// The epoch field read back from a composed identifier.
pub open spec fn spec_kid_epoch(kid: u64, r: KidBitRange) -> u64 {
    kid & low_mask(r.epoch_bits)
}

/// Splits a key identifier back into its (context, epoch, member) triple.
pub fn decompose_kid(kid: u64, r: KidBitRange) -> (res: (u64, u64, u64))
    requires
        r.wf(),
    ensures
        res.0 == spec_kid_context(kid, r),
        res.1 == spec_kid_epoch(kid, r),
        res.2 == spec_kid_member(kid, r),
{
    let field_bits: u8 = r.epoch_bits + r.member_bits;
    let ctx = kid >> (field_bits as u64);
    let member = (kid >> (r.epoch_bits as u64)) & mask_of(r.member_bits);
    let epoch = kid & mask_of(r.epoch_bits);
    (ctx, epoch, member)
}

/// Decomposition inverts composition: for any triple whose fields fit the
/// configured widths, composing and then decomposing gives the triple back.
pub proof fn lemma_kid_round_trip(ctx: u64, epoch: u64, member: u64, r: KidBitRange)
    requires
        r.wf(),
        epoch <= low_mask(r.epoch_bits),
        member <= low_mask(r.member_bits),
        ctx <= low_mask((64 - r.epoch_bits - r.member_bits) as u8),
    ensures
        spec_kid_context(spec_compose_kid(ctx, epoch, member, r), r) == ctx,
        spec_kid_epoch(spec_compose_kid(ctx, epoch, member, r), r) == epoch,
        spec_kid_member(spec_compose_kid(ctx, epoch, member, r), r) == member,
{
    let e = r.epoch_bits;
    let m = r.member_bits;
    let kid = spec_compose_kid(ctx, epoch, member, r);
    assert({
        let mask_e = if e >= 64 { 0xffff_ffff_ffff_ffffu64 } else { ((1u64 << (e as u64)) - 1) as u64 };
        let mask_m = if m >= 64 { 0xffff_ffff_ffff_ffffu64 } else { ((1u64 << (m as u64)) - 1) as u64 };
        let mask_c = if ((64 - e - m) as u8) >= 64 { 0xffff_ffff_ffff_ffffu64 } else { ((1u64 << (((64 - e - m) as u8) as u64)) - 1) as u64 };
        let k = ((ctx << ((e + m) as u64)) | (member << (e as u64))) | (epoch & mask_e);
        (epoch <= mask_e && member <= mask_m && ctx <= mask_c && e + m <= 63) ==> {
            &&& k >> ((e + m) as u64) == ctx
            &&& (k >> (e as u64)) & mask_m == member
            &&& k & mask_e == epoch
        }
    }) by (bit_vector);
}

/// Role of a peer in a two-party session: the server derives and
/// distributes the session secrets, the client receives them.
#[derive(Clone, Copy, Debug, PartialEq, Eq, Structural)]
pub enum MlsRole {
    Server,
    Client,
}

/// Key identifiers a peer uses for its own outbound audio/video streams and
/// for the streams of its remote counterpart.
#[derive(Clone, Copy, Debug, PartialEq, Eq, Structural)]
pub struct KidMapping {
    pub send_aud: u64,
    pub send_vid: u64,
    pub recv_aud: u64,
    pub recv_vid: u64,
}

/// The audio identifier assigned to sender `index` under `base_kid`.
pub open spec fn spec_audio_kid(base_kid: u64, index: u64) -> int {
    base_kid + 2 * index
}

/// The video identifier assigned to sender `index` under `base_kid`.
pub open spec fn spec_video_kid(base_kid: u64, index: u64) -> int {
    base_kid + 2 * index + 1
}

/// Assigns the audio/video key-identifier pair of the sender with the given
/// index: `(base_kid + 2 * index, base_kid + 2 * index + 1)`. Distinct sender
/// indices therefore get disjoint pairs.
pub fn kid_for_sender(base_kid: u64, sender_index: u64) -> (r: (u64, u64))
    requires
        base_kid + 2 * sender_index + 1 <= u64::MAX,
    ensures
        r.0 == spec_audio_kid(base_kid, sender_index),
        r.1 == spec_video_kid(base_kid, sender_index),
{
    let aud = base_kid + 2 * sender_index;
    let vid = aud + 1;
    (aud, vid)
}

/// The identifier mapping a role computes for itself and its peer: the first
/// role sends as sender 0 and receives from sender 1, the second role the
/// other way round.
pub open spec fn spec_kid_mapping(role: MlsRole, base_kid: u64) -> KidMapping {
    let self_idx: u64 = if role is Server { 0 } else { 1 };
    let peer_idx: u64 = if role is Server { 1 } else { 0 };
    KidMapping {
        send_aud: spec_audio_kid(base_kid, self_idx) as u64,
        send_vid: spec_video_kid(base_kid, self_idx) as u64,
        recv_aud: spec_audio_kid(base_kid, peer_idx) as u64,
        recv_vid: spec_video_kid(base_kid, peer_idx) as u64,
    }
}

/// Derives the four identifiers of a role from the shared base identifier.
pub fn compute_kids(role: MlsRole, base_kid: u64) -> (r: KidMapping)
    requires
        base_kid + 3 <= u64::MAX,
    ensures
        r == spec_kid_mapping(role, base_kid),
{
    match role {
        MlsRole::Server => {
            let (self_aud, self_vid) = kid_for_sender(base_kid, 0);
            let (peer_aud, peer_vid) = kid_for_sender(base_kid, 1);
            KidMapping { send_aud: self_aud, send_vid: self_vid, recv_aud: peer_aud, recv_vid: peer_vid }
        },
        MlsRole::Client => {
            let (self_aud, self_vid) = kid_for_sender(base_kid, 1);
            let (peer_aud, peer_vid) = kid_for_sender(base_kid, 0);
            KidMapping { send_aud: self_aud, send_vid: self_vid, recv_aud: peer_aud, recv_vid: peer_vid }
        },
    }
}

/// The two roles' mappings are exact complements of each other: what the
/// first role sends on, the second receives on, and the other way round, for
/// all four slots; the first role's own pair is `(B, B + 1)` and its peer
/// pair `(B + 2, B + 3)`.
pub proof fn lemma_kid_mapping_complement(base_kid: u64)
    requires
        base_kid + 3 <= u64::MAX,
    ensures
        spec_kid_mapping(MlsRole::Server, base_kid).send_aud == spec_kid_mapping(
            MlsRole::Client,
            base_kid,
        ).recv_aud,
        spec_kid_mapping(MlsRole::Server, base_kid).send_vid == spec_kid_mapping(
            MlsRole::Client,
            base_kid,
        ).recv_vid,
        spec_kid_mapping(MlsRole::Server, base_kid).recv_aud == spec_kid_mapping(
            MlsRole::Client,
            base_kid,
        ).send_aud,
        spec_kid_mapping(MlsRole::Server, base_kid).recv_vid == spec_kid_mapping(
            MlsRole::Client,
            base_kid,
        ).send_vid,
        spec_kid_mapping(MlsRole::Server, base_kid) == (KidMapping {
            send_aud: base_kid,
            send_vid: (base_kid + 1) as u64,
            recv_aud: (base_kid + 2) as u64,
            recv_vid: (base_kid + 3) as u64,
        }),
{
}

/// Two triples that differ anywhere within the configured widths compose to
/// distinct identifiers.
pub proof fn lemma_kid_injective(
    ctx1: u64,
    epoch1: u64,
    member1: u64,
    ctx2: u64,
    epoch2: u64,
    member2: u64,
    r: KidBitRange,
)
    requires
        r.wf(),
        epoch1 <= low_mask(r.epoch_bits),
        member1 <= low_mask(r.member_bits),
        ctx1 <= low_mask((64 - r.epoch_bits - r.member_bits) as u8),
        epoch2 <= low_mask(r.epoch_bits),
        member2 <= low_mask(r.member_bits),
        ctx2 <= low_mask((64 - r.epoch_bits - r.member_bits) as u8),
        spec_compose_kid(ctx1, epoch1, member1, r) == spec_compose_kid(ctx2, epoch2, member2, r),
    ensures
        ctx1 == ctx2 && epoch1 == epoch2 && member1 == member2,
{
    lemma_kid_round_trip(ctx1, epoch1, member1, r);
    lemma_kid_round_trip(ctx2, epoch2, member2, r);
}

} // verus!
