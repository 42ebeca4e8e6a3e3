use sframe_session::kid::{
    KidBitRange, KidMapping, MlsRole, compose_kid, compute_kids, decompose_kid, kid_for_sender,
};
use sframe_session::mls_session::{
    MlsSessionKeys, decode_session_keys, encode_session_keys, read_u64_le,
};
use sframe_session::mux::{
    SID_AUDIO, SID_VIDEO, decode_mux_frame, encode_mux_frame, read_u32_le, write_u32_le,
};

#[test]
fn kid_compose_decompose_round_trip() {
    let range = KidBitRange::new(8, 8).unwrap();
    let kid = compose_kid(5, 3, 7, range).unwrap();
    assert_eq!(kid, (5u64 << 16) | (7u64 << 8) | 3);
    let (ctx, epoch, member) = decompose_kid(kid, range);
    assert_eq!((ctx, epoch, member), (5, 3, 7));
}

#[test]
fn kid_compose_rejects_oversized_fields() {
    let range = KidBitRange::new(8, 8).unwrap();
    assert!(compose_kid(1, 0, 256, range).is_none());
    assert!(compose_kid(1u64 << 48, 0, 0, range).is_none());
    // The epoch is reduced to its low bits by design, not rejected.
    let a = compose_kid(1, 256, 0, range).unwrap();
    let b = compose_kid(1, 0, 0, range).unwrap();
    assert_eq!(a, b);
}

#[test]
fn kid_bit_range_needs_room_for_context() {
    assert!(KidBitRange::new(32, 32).is_none());
    assert!(KidBitRange::new(32, 31).is_some());
}

#[test]
fn kid_pair_allocation_for_two_party_session() {
    let base = 10u64;
    assert_eq!(kid_for_sender(base, 0), (10, 11));
    assert_eq!(kid_for_sender(base, 1), (12, 13));

    let server = compute_kids(MlsRole::Server, base);
    let client = compute_kids(MlsRole::Client, base);
    assert_eq!(
        server,
        KidMapping { send_aud: 10, send_vid: 11, recv_aud: 12, recv_vid: 13 }
    );
    assert_eq!(
        client,
        KidMapping { send_aud: 12, send_vid: 13, recv_aud: 10, recv_vid: 11 }
    );
    // The two roles are exact complements of each other.
    assert_eq!(server.send_aud, client.recv_aud);
    assert_eq!(server.send_vid, client.recv_vid);
    assert_eq!(server.recv_aud, client.send_aud);
    assert_eq!(server.recv_vid, client.send_vid);
}

#[test]
fn u32_le_layout_and_round_trip() {
    let mut out = Vec::new();
    write_u32_le(&mut out, 0x1234_5678);
    assert_eq!(out, vec![0x78, 0x56, 0x34, 0x12]);
    assert_eq!(read_u32_le(&out), Some(0x1234_5678));
    assert_eq!(read_u32_le(&out[..3]), None);
}

#[test]
fn mux_frames_come_back_in_written_order() {
    let frame_a = vec![0xaa, 0xbb, 0xcc];
    let frame_b = vec![0x01, 0x02];
    let mut wire = encode_mux_frame(SID_AUDIO, &frame_a).unwrap();
    wire.extend_from_slice(&encode_mux_frame(SID_VIDEO, &frame_b).unwrap());

    let (sid1, payload1, used1) = decode_mux_frame(&wire).unwrap();
    assert_eq!(sid1, SID_AUDIO);
    assert_eq!(payload1, frame_a);
    let (sid2, payload2, used2) = decode_mux_frame(&wire[used1..]).unwrap();
    assert_eq!(sid2, SID_VIDEO);
    assert_eq!(payload2, frame_b);
    assert_eq!(used1 + used2, wire.len());
}

#[test]
fn mux_frame_layout_is_sid_len_payload() {
    let frame = encode_mux_frame(0x02, &[0xde, 0xad]).unwrap();
    assert_eq!(frame, vec![0x02, 0x02, 0x00, 0x00, 0x00, 0xde, 0xad]);
}

#[test]
fn truncated_mux_frame_is_incomplete() {
    let frame = encode_mux_frame(0x01, &[1, 2, 3, 4]).unwrap();
    assert!(decode_mux_frame(&frame[..frame.len() - 1]).is_none());
    assert!(decode_mux_frame(&frame[..4]).is_none());
    assert!(decode_mux_frame(&frame).is_some());
}

#[test]
fn session_keys_message_round_trips() {
    let keys = MlsSessionKeys {
        epoch: 3,
        audio_secret: vec![7u8; 32],
        video_secret: vec![9u8; 32],
        base_kid: 0xdead_beef_0000_0001,
    };
    let bytes = encode_session_keys(&keys).unwrap();
    assert_eq!(bytes.len(), 24 + 64);
    let back = decode_session_keys(&bytes).unwrap();
    assert_eq!(back.epoch, 3);
    assert_eq!(back.base_kid, 0xdead_beef_0000_0001);
    assert_eq!(back.audio_secret, keys.audio_secret);
    assert_eq!(back.video_secret, keys.video_secret);

    assert!(decode_session_keys(&bytes[..bytes.len() - 1]).is_none());
    assert!(decode_session_keys(&bytes[..10]).is_none());
}

#[test]
fn kid_seed_reads_little_endian() {
    let seed = [0x01, 0x00, 0x00, 0x00, 0x00, 0x00, 0x00, 0x80];
    assert_eq!(read_u64_le(&seed), Some(0x8000_0000_0000_0001));
    assert_eq!(read_u64_le(&seed[..7]), None);
}
