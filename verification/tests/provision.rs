use base64::Engine;
use hkdf::Hkdf;
use sframe_session::errors::SessionError;
use sframe_session::mls_client::{MlsClient, hkdf_like, trim_whitespace, u64_dec_bytes};
use sframe_session::mls_session::derive_session_keys;
use sframe_session::roster::{MemberEntry, roster_join};
use sha2::{Digest, Sha256};

#[test]
fn client_starts_inactive() {
    let client = MlsClient::new(String::from("danilo"), 123456);
    assert_eq!(client.identity(), "danilo");
    assert_eq!(client.room_id(), 123456);
    assert_eq!(client.epoch_u64(), 0);
    assert!(!client.has_group());
}

#[test]
fn psk_must_be_nonempty_base64() {
    let mut client = MlsClient::new(String::from("a"), 1);
    assert_eq!(
        client.set_external_psk_b64(String::from("")),
        Err(SessionError::ProvisioningFailure)
    );
    assert_eq!(
        client.set_external_psk_b64(String::from("   ")),
        Err(SessionError::ProvisioningFailure)
    );
    assert_eq!(
        client.set_external_psk_b64(String::from("!!!not base64!!!")),
        Err(SessionError::ProvisioningFailure)
    );
    assert!(client.set_external_psk_b64(String::from("  c2VjcmV0  ")).is_ok());
}

#[test]
fn has_group_needs_psk_and_epoch() {
    let mut client = MlsClient::new(String::from("a"), 1);
    client.set_external_psk_b64(String::from("c2VjcmV0")).unwrap();
    assert!(!client.has_group());
    client.set_epoch(1);
    assert!(client.has_group());
}

#[test]
fn bump_epoch_saturates() {
    let mut client = MlsClient::new(String::from("a"), 1);
    assert_eq!(client.bump_epoch(), 1);
    assert_eq!(client.bump_epoch(), 2);
    client.set_epoch(u64::MAX);
    assert_eq!(client.bump_epoch(), u64::MAX);
}

#[test]
fn master_key_export_matches_direct_derivation() {
    let mut client = MlsClient::new(String::from("danilo"), 123456);
    assert_eq!(
        client.export_sframe_master_b64(),
        Err(SessionError::ProvisioningFailure)
    );
    // "c2VjcmV0" is the base64 of b"secret".
    client.set_external_psk_b64(String::from("c2VjcmV0")).unwrap();
    assert_eq!(
        client.export_sframe_master_b64(),
        Err(SessionError::ProvisioningFailure)
    );
    client.set_epoch(2);
    let exported = client.export_sframe_master_b64().unwrap();

    let hk = Hkdf::<Sha256>::new(None, b"secret");
    let mut okm = [0u8; 32];
    hk.expand(b"sframe/master|room:123456|epoch:2", &mut okm).unwrap();
    let expected = base64::engine::general_purpose::STANDARD_NO_PAD.encode(okm);
    assert_eq!(exported, expected);
}

#[test]
fn trim_strips_both_ends() {
    assert_eq!(trim_whitespace(b"  abc\t\r\n"), b"abc");
    assert_eq!(trim_whitespace(b"abc"), b"abc");
    assert_eq!(trim_whitespace(b" \t\n"), b"");
    assert_eq!(trim_whitespace(b""), b"");
    assert_eq!(trim_whitespace(b" a b "), b"a b");
    assert_eq!(trim_whitespace(b"\x0b\x0cabc\x0c"), b"abc");
}

#[test]
fn trim_matches_str_trim_on_unicode_whitespace() {
    let samples = [
        "\u{a0}abc\u{a0}",
        "\u{2003}\u{2003}x",
        "\u{3000}mid dle\u{3000}",
        "\u{85}\u{1680}y\u{2028}\u{2029}\u{202f}\u{205f}",
        "no-trim",
        "\u{a0}",
    ];
    for sample in samples {
        assert_eq!(
            trim_whitespace(sample.as_bytes()),
            sample.trim().as_bytes(),
            "trim differs on {sample:?}"
        );
    }
}

#[test]
fn decimal_rendering() {
    assert_eq!(u64_dec_bytes(0), b"0");
    assert_eq!(u64_dec_bytes(7), b"7");
    assert_eq!(u64_dec_bytes(1234567890), b"1234567890");
    assert_eq!(u64_dec_bytes(u64::MAX), b"18446744073709551615");
}

#[test]
fn hkdf_like_is_truncated_digest() {
    let mut hasher = Sha256::new();
    hasher.update(b"master-secret");
    hasher.update(b"SFRAME_AUDIO");
    let digest = hasher.finalize();

    let out32 = hkdf_like(b"master-secret", b"SFRAME_AUDIO", 32);
    assert_eq!(out32.as_slice(), &digest[..]);

    let out8 = hkdf_like(b"master-secret", b"SFRAME_AUDIO", 8);
    assert_eq!(out8.as_slice(), &digest[..8]);

    let out40 = hkdf_like(b"master-secret", b"SFRAME_AUDIO", 40);
    assert_eq!(&out40[..32], &digest[..]);
    assert_eq!(&out40[32..], &[0u8; 8]);
}

#[test]
fn group_exporter_produces_fixed_length_secrets() {
    let provider = openmls_rust_crypto::OpenMlsRustCrypto::default();
    let ciphersuite =
        openmls::prelude::Ciphersuite::MLS_128_DHKEMX25519_AES128GCM_SHA256_Ed25519;
    let credential = openmls::prelude::BasicCredential::new(b"peer".to_vec());
    let signature_keys =
        openmls_basic_credential::SignatureKeyPair::new(ciphersuite.signature_algorithm())
            .unwrap();
    let credential_with_key = openmls::prelude::CredentialWithKey {
        credential: credential.into(),
        signature_key: signature_keys.public().into(),
    };
    let group_config = openmls::prelude::MlsGroupCreateConfig::builder()
        .use_ratchet_tree_extension(true)
        .build();
    let group = openmls::prelude::MlsGroup::new(
        &provider,
        &signature_keys,
        &group_config,
        credential_with_key,
    )
    .unwrap();

    let crypto = openmls::prelude::OpenMlsProvider::crypto(&provider);
    let keys = derive_session_keys(&group, crypto).unwrap();
    assert_eq!(keys.audio_secret.len(), 32);
    assert_eq!(keys.video_secret.len(), 32);
    assert_ne!(keys.audio_secret, keys.video_secret);

    // The exporter is deterministic within one epoch.
    let again = derive_session_keys(&group, crypto).unwrap();
    assert_eq!(keys.audio_secret, again.audio_secret);
    assert_eq!(keys.video_secret, again.video_secret);
    assert_eq!(keys.base_kid, again.base_kid);
    assert_eq!(keys.epoch, again.epoch);
}

#[test]
fn roster_join_assigns_and_reuses_indices() {
    let mut roster: Vec<MemberEntry> = Vec::new();
    assert_eq!(roster_join(&mut roster, String::from("server")), 0);
    assert_eq!(roster_join(&mut roster, String::from("alice")), 1);
    assert_eq!(roster_join(&mut roster, String::from("bob")), 2);
    assert_eq!(roster.len(), 3);

    // A returning identity keeps its index; the roster does not grow.
    assert_eq!(roster_join(&mut roster, String::from("alice")), 1);
    assert_eq!(roster.len(), 3);
    assert_eq!(roster[1].identity, "alice");
    assert_eq!(roster[1].index, 1);
}
