use nulctl::identity::{auth_error_hint, Identity};

#[test]
fn auth_error_hint_includes_pubkey_on_rejection() {
    let secret = [1u8; 32];
    let identity = Identity::from_secret(secret);
    let hint = auth_error_hint("Authentication rejected: Public key not allowed", &identity);
    assert!(hint.contains(&identity.public_key_hex()));
    assert!(!auth_error_hint("connection refused", &identity).contains("Your public key:"));
}

#[test]
fn public_key_and_signature_are_hex() {
    let identity = Identity::from_secret([7u8; 32]);
    let pk = identity.public_key_hex();
    assert_eq!(pk.len(), 64);
    assert!(pk.chars().all(|c| c.is_ascii_hexdigit() && !c.is_ascii_uppercase()));
    let sig = identity.sign(b"nonce");
    assert_eq!(sig.len(), 128);
    assert_eq!(sig, identity.sign(b"nonce"));
    assert_ne!(sig, identity.sign(b"other"));
}

#[test]
fn public_key_matches_known_vector() {
    // RFC 8032, section 7.1, test 1.
    let secret: [u8; 32] = [
        0x9d, 0x61, 0xb1, 0x9d, 0xef, 0xfd, 0x5a, 0x60, 0xba, 0x84, 0x4a, 0xf4, 0x92, 0xec, 0x2c, 0xc4,
        0x44, 0x49, 0xc5, 0x69, 0x7b, 0x32, 0x69, 0x19, 0x70, 0x3b, 0xac, 0x03, 0x1c, 0xae, 0x7f, 0x60,
    ];
    let identity = Identity::from_secret(secret);
    assert_eq!(
        identity.public_key_hex(),
        "d75a980182b10ab7d54bfed3c964073a0ee172f3daa62325af021a68f707511a"
    );
    assert_eq!(
        identity.sign(b""),
        "e5564300c360ac729086e2cc806e828a84877f1eb8e5d974d873e065224901555fb8821590a33bacc61e39701cf9b46bd25bf5f0595bbe24655141438e7a100b"
    );
}

#[test]
fn stored_bytes_must_be_a_whole_key() {
    assert!(Identity::from_stored_bytes(&[1u8; 31]).is_none());
    assert!(Identity::from_stored_bytes(&[1u8; 33]).is_none());
    let id = Identity::from_stored_bytes(&[3u8; 32]).unwrap();
    assert_eq!(id.to_bytes(), [3u8; 32]);
}

#[test]
fn auth_hint_passes_other_errors_through() {
    let identity = Identity::from_secret([2u8; 32]);
    assert_eq!(auth_error_hint("connection refused", &identity), "connection refused");
}
