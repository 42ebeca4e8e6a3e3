use sframe_session::crypto::SuiteId;
use sframe_session::peer::WasmPeer;
use sframe_session::diag::inspect_frame;
use sframe_session::errors::SessionError;
use sframe_session::ratchet::RatchetChain;
use sframe_session::receiver::{Receiver, ReceiverOptions};
use sframe_session::sender::{Sender, SenderOptions};

const SECRET: &[u8] = b"SUPER_SECRET";

#[test]
fn encrypt_decrypt_hello() {
    let mut sender = Sender::with_cipher_suite(1, SuiteId::AesGcm256Sha512);
    sender.set_encryption_key(SECRET).unwrap();
    let frame = sender.encrypt_frame(b"hello").unwrap();

    let mut receiver = Receiver::with_cipher_suite(SuiteId::AesGcm256Sha512);
    receiver.set_encryption_key(1, SECRET).unwrap();
    let out = receiver.decrypt_frame(&frame).unwrap();
    assert_eq!(out, b"hello");
}

#[test]
fn round_trip_various_lengths() {
    for suite in [SuiteId::AesGcm128Sha256, SuiteId::AesGcm256Sha512] {
        let mut sender = Sender::with_cipher_suite(42, suite);
        sender.set_encryption_key(SECRET).unwrap();
        let mut receiver = Receiver::with_cipher_suite(suite);
        receiver.set_encryption_key(42, SECRET).unwrap();
        for len in [1usize, 13, 1000] {
            let payload: Vec<u8> = (0..len).map(|i| (i % 251) as u8).collect();
            let frame = sender.encrypt_frame(&payload).unwrap();
            let out = receiver.decrypt_frame(&frame).unwrap();
            assert_eq!(out, payload);
        }
    }
}

#[test]
fn empty_payload_round_trips() {
    let mut sender = Sender::with_cipher_suite(2, SuiteId::AesGcm256Sha512);
    sender.set_encryption_key(SECRET).unwrap();
    let frame = sender.encrypt_frame(b"").unwrap();
    let mut receiver = Receiver::with_cipher_suite(SuiteId::AesGcm256Sha512);
    receiver.set_encryption_key(2, SECRET).unwrap();
    assert_eq!(receiver.decrypt_frame(&frame).unwrap(), b"");
}

#[test]
fn reinstalling_a_key_id_overwrites_it() {
    let mut sender = Sender::with_cipher_suite(5, SuiteId::AesGcm256Sha512);
    sender.set_encryption_key(b"second key").unwrap();
    let frame = sender.encrypt_frame(b"payload").unwrap();

    let mut receiver = Receiver::with_cipher_suite(SuiteId::AesGcm256Sha512);
    receiver.set_encryption_key(5, b"first key").unwrap();
    receiver.set_encryption_key(5, b"second key").unwrap();
    assert_eq!(receiver.decrypt_frame(&frame).unwrap(), b"payload");
}

#[test]
fn maximal_key_id_round_trips() {
    let mut sender = Sender::with_cipher_suite(u64::MAX, SuiteId::AesGcm256Sha512);
    sender.set_encryption_key(SECRET).unwrap();
    let frame = sender.encrypt_frame(b"top").unwrap();
    assert_eq!(inspect_frame(&frame).unwrap().kid, u64::MAX);
    let mut receiver = Receiver::with_cipher_suite(SuiteId::AesGcm256Sha512);
    receiver.set_encryption_key(u64::MAX, SECRET).unwrap();
    assert_eq!(receiver.decrypt_frame(&frame).unwrap(), b"top");
}

#[test]
fn counter_starts_at_zero_and_increments() {
    let mut sender = Sender::new(7);
    sender.set_encryption_key(SECRET).unwrap();
    assert_eq!(sender.counter(), 0);
    let f0 = sender.encrypt_frame(b"a").unwrap();
    assert_eq!(sender.counter(), 1);
    let f1 = sender.encrypt_frame(b"b").unwrap();
    assert_eq!(sender.counter(), 2);
    let i0 = inspect_frame(&f0).unwrap();
    let i1 = inspect_frame(&f1).unwrap();
    assert_eq!(i0.ctr, 0);
    assert_eq!(i1.ctr, 1);
    assert_eq!(i0.kid, 7);
    assert_eq!(i1.kid, 7);
}

#[test]
fn counter_exhaustion_after_ceiling() {
    let mut sender = Sender::from_options(SenderOptions {
        key_id: 3,
        cipher_suite: SuiteId::AesGcm256Sha512,
        max_counter: 2,
    });
    sender.set_encryption_key(SECRET).unwrap();
    assert!(sender.encrypt_frame(b"one").is_ok());
    assert!(sender.encrypt_frame(b"two").is_ok());
    let third = sender.encrypt_frame(b"three");
    assert_eq!(third, Err(SessionError::CounterExhausted));
    assert_eq!(sender.counter(), 2);
}

#[test]
fn encrypt_without_key_is_refused() {
    let mut sender = Sender::new(3);
    assert_eq!(sender.encrypt_frame(b"x"), Err(SessionError::NoActiveKey));
}

#[test]
fn reset_counter_starts_over() {
    let mut sender = Sender::new(9);
    sender.set_encryption_key(SECRET).unwrap();
    sender.encrypt_frame(b"x").unwrap();
    sender.reset_counter();
    assert_eq!(sender.counter(), 0);
    let f = sender.encrypt_frame(b"y").unwrap();
    assert_eq!(inspect_frame(&f).unwrap().ctr, 0);
}

#[test]
fn key_id_accessor_and_ratchet_key() {
    let mut sender = Sender::new(5);
    assert_eq!(sender.key_id(), 5);
    sender.ratchet_encryption_key(6, SECRET).unwrap();
    assert_eq!(sender.key_id(), 6);
}

#[test]
fn tampering_any_body_byte_fails_authentication() {
    let mut sender = Sender::with_cipher_suite(1, SuiteId::AesGcm256Sha512);
    sender.set_encryption_key(SECRET).unwrap();
    let frame = sender.encrypt_frame(b"payload under test").unwrap();
    let header_len = inspect_frame(&frame).unwrap().header_len;

    for i in header_len..frame.len() {
        let mut tampered = frame.clone();
        tampered[i] ^= 0x01;
        let mut receiver = Receiver::with_cipher_suite(SuiteId::AesGcm256Sha512);
        receiver.set_encryption_key(1, SECRET).unwrap();
        assert_eq!(
            receiver.decrypt_frame(&tampered),
            Err(SessionError::AuthenticationFailure),
            "byte {} flipped but decryption did not fail with an authentication error",
            i
        );
    }
}

#[test]
fn wrong_key_fails_authentication() {
    let mut sender = Sender::with_cipher_suite(1, SuiteId::AesGcm256Sha512);
    sender.set_encryption_key(SECRET).unwrap();
    let frame = sender.encrypt_frame(b"hello").unwrap();

    let mut receiver = Receiver::with_cipher_suite(SuiteId::AesGcm256Sha512);
    receiver.set_encryption_key(1, b"ANOTHER_SECRET").unwrap();
    assert_eq!(
        receiver.decrypt_frame(&frame),
        Err(SessionError::AuthenticationFailure)
    );
}

#[test]
fn missing_key_is_reported_with_its_id() {
    let mut sender = Sender::with_cipher_suite(8, SuiteId::AesGcm256Sha512);
    sender.set_encryption_key(SECRET).unwrap();
    let frame = sender.encrypt_frame(b"hi").unwrap();

    let mut receiver = Receiver::with_cipher_suite(SuiteId::AesGcm256Sha512);
    receiver.set_encryption_key(9, SECRET).unwrap();
    assert_eq!(receiver.decrypt_frame(&frame), Err(SessionError::MissingKey(8)));
}

#[test]
fn garbage_frame_is_invalid() {
    let mut receiver = Receiver::with_cipher_suite(SuiteId::AesGcm256Sha512);
    receiver.set_encryption_key(1, SECRET).unwrap();
    let empty: [u8; 0] = [];
    assert_eq!(receiver.decrypt_frame(&empty), Err(SessionError::InvalidFrame));
}

#[test]
fn removed_key_is_missing_afterwards() {
    let mut sender = Sender::with_cipher_suite(4, SuiteId::AesGcm256Sha512);
    sender.set_encryption_key(SECRET).unwrap();
    let frame = sender.encrypt_frame(b"data").unwrap();

    let mut receiver = Receiver::with_cipher_suite(SuiteId::AesGcm256Sha512);
    receiver.set_encryption_key(4, SECRET).unwrap();
    assert!(receiver.decrypt_frame(&frame).is_ok());
    assert!(receiver.remove_encryption_key(4));
    assert!(!receiver.remove_encryption_key(4));
    let frame2 = sender.encrypt_frame(b"data").unwrap();
    assert_eq!(receiver.decrypt_frame(&frame2), Err(SessionError::MissingKey(4)));
}

#[test]
fn bad_ratchet_bits_are_a_configuration_error() {
    let r = Receiver::from_options(ReceiverOptions {
        cipher_suite: SuiteId::AesGcm256Sha512,
        n_ratchet_bits: Some(0),
    });
    assert!(matches!(r, Err(SessionError::FieldOverflow)));
    let r64 = Receiver::from_options(ReceiverOptions {
        cipher_suite: SuiteId::AesGcm256Sha512,
        n_ratchet_bits: Some(64),
    });
    assert!(matches!(r64, Err(SessionError::FieldOverflow)));
}

#[test]
fn ratcheting_receiver_follows_the_chain() {
    let suite = SuiteId::AesGcm256Sha512;
    let n_bits = 4u8;
    let gen = 7u64;
    let kid0 = gen << n_bits;

    let mut chain = RatchetChain::start(suite, kid0, n_bits, SECRET).unwrap();
    let mut sender = Sender::with_cipher_suite(kid0, suite);
    sender.set_encryption_key(SECRET).unwrap();

    let mut receiver = Receiver::from_options(ReceiverOptions {
        cipher_suite: suite,
        n_ratchet_bits: Some(n_bits),
    })
    .unwrap();
    receiver.set_encryption_key(kid0, SECRET).unwrap();

    let frame0 = sender.encrypt_frame(b"step zero").unwrap();
    assert_eq!(receiver.decrypt_frame(&frame0).unwrap(), b"step zero");

    // The sender rotates its key; only the wire key id tells the receiver.
    let (kid1, material1) = chain.next_base_key();
    assert_eq!(kid1, kid0 + 1);
    sender.ratchet_encryption_key(kid1, &material1).unwrap();
    let frame1 = sender.encrypt_frame(b"step one").unwrap();
    assert_eq!(receiver.decrypt_frame(&frame1).unwrap(), b"step one");

    // A replay from the superseded position is classified as stale.
    assert_eq!(receiver.decrypt_frame(&frame0), Err(SessionError::StaleKey(kid0)));
}

#[test]
fn ratchet_chain_matches_framing_library() {
    // The chain step must be the framing library's own ratchet, not a copy.
    let mut chain = RatchetChain::start(SuiteId::AesGcm256Sha512, 0x10, 4, SECRET).unwrap();
    let (_, material1) = chain.next_base_key();
    let direct =
        sframe::ratchet::RatchetingKeyMaterial::derive_from(sframe::CipherSuite::AesGcm256Sha512, SECRET)
            .unwrap();
    assert_eq!(material1.as_slice(), direct.as_ref());
    assert_ne!(material1.as_slice(), SECRET);
}

#[test]
fn ratcheting_receiver_can_skip_ahead() {
    let suite = SuiteId::AesGcm256Sha512;
    let n_bits = 4u8;
    let kid0 = 0x20u64;

    let mut chain = RatchetChain::start(suite, kid0, n_bits, SECRET).unwrap();
    let mut sender = Sender::with_cipher_suite(kid0, suite);
    sender.set_encryption_key(SECRET).unwrap();

    let mut receiver = Receiver::from_options(ReceiverOptions {
        cipher_suite: suite,
        n_ratchet_bits: Some(n_bits),
    })
    .unwrap();
    receiver.set_encryption_key(kid0, SECRET).unwrap();

    // Two rotations pass without the receiver seeing a frame.
    let (_kid1, _m1) = chain.next_base_key();
    let (kid2, m2) = chain.next_base_key();
    sender.ratchet_encryption_key(kid2, &m2).unwrap();
    let frame = sender.encrypt_frame(b"caught up").unwrap();
    assert_eq!(receiver.decrypt_frame(&frame).unwrap(), b"caught up");
}

#[test]
fn unknown_generation_is_missing_not_stale() {
    let suite = SuiteId::AesGcm256Sha512;
    let mut receiver = Receiver::from_options(ReceiverOptions {
        cipher_suite: suite,
        n_ratchet_bits: Some(4),
    })
    .unwrap();
    receiver.set_encryption_key(0x10, SECRET).unwrap();

    let mut sender = Sender::with_cipher_suite(0x50, suite);
    sender.set_encryption_key(SECRET).unwrap();
    let frame = sender.encrypt_frame(b"other generation").unwrap();
    assert_eq!(receiver.decrypt_frame(&frame), Err(SessionError::MissingKey(0x50)));
}

#[test]
fn peer_loopback_shares_key_ids() {
    let mut peer = WasmPeer::new(1, 2, SuiteId::AesGcm256Sha512, SECRET);
    let audio = peer.encrypt_audio(b"voice").unwrap();
    let video = peer.encrypt_video(b"picture").unwrap();
    assert_eq!(peer.decrypt_audio(&audio).unwrap(), b"voice");
    assert_eq!(peer.decrypt_video(&video).unwrap(), b"picture");
}

#[test]
fn peer_full_duplex_pair() {
    // Complementary key ids, as the two-party allocation hands them out.
    let mut first = WasmPeer::new_full_duplex(10, 11, 12, 13, SuiteId::AesGcm128Sha256, SECRET);
    let mut second = WasmPeer::new_full_duplex(12, 13, 10, 11, SuiteId::AesGcm128Sha256, SECRET);

    let a = first.encrypt_audio(b"from first").unwrap();
    assert_eq!(second.decrypt_audio(&a).unwrap(), b"from first");
    let v = second.encrypt_video(b"from second").unwrap();
    assert_eq!(first.decrypt_video(&v).unwrap(), b"from second");

    // Crossed streams carry the wrong key id and are refused.
    let a2 = first.encrypt_audio(b"again").unwrap();
    assert!(second.decrypt_video(&a2).is_err());
}

#[test]
fn frame_inspection_reports_sections() {
    let mut sender = Sender::with_cipher_suite(3, SuiteId::AesGcm128Sha256);
    sender.set_encryption_key(SECRET).unwrap();
    let frame = sender.encrypt_frame(b"12345").unwrap();
    let fi = inspect_frame(&frame).unwrap();
    assert_eq!(fi.kid, 3);
    assert_eq!(fi.ctr, 0);
    assert_eq!(fi.total_len, frame.len());
    assert_eq!(fi.tag_len, 16);
    assert_eq!(fi.ct_len, frame.len() - fi.header_len - 16);
    assert_eq!(fi.ct_len, 5);
}
