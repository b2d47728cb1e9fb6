use ed25519_dalek::{Signer, SigningKey};
use identity_crypto::agent_key::{verify, AgentKeyRecord};
use identity_crypto::{KeyScheme, Timestamp};
use rand::rngs::OsRng;

fn key(public_key_hex: &str, revoked_at: Option<Timestamp>) -> AgentKeyRecord {
    AgentKeyRecord {
        public_key: public_key_hex.to_string(),
        scheme: KeyScheme::Ed25519,
        is_device_key: false,
        created_at: None,
        revoked_at,
    }
}

fn key_with_created_at(public_key_hex: &str, created_at: Timestamp) -> AgentKeyRecord {
    AgentKeyRecord {
        created_at: Some(created_at),
        is_device_key: true,
        ..key(public_key_hex, None)
    }
}

#[test]
fn genuine_signature_from_a_non_revoked_key_verifies() {
    let signing_key = SigningKey::generate(&mut OsRng);
    let public_hex = hex::encode(signing_key.verifying_key().to_bytes());
    let msg = b"hello room log";
    let sig = signing_key.sign(msg);

    let keys = vec![key(&public_hex, None)];
    let ok = verify(
        &keys, &public_hex, KeyScheme::Ed25519, msg, &sig.to_bytes(),
        Timestamp { seconds: 1_000, nanos: 0 },
    )
    .unwrap();
    assert!(ok);
}

#[test]
fn signature_after_revocation_does_not_verify() {
    let signing_key = SigningKey::generate(&mut OsRng);
    let public_hex = hex::encode(signing_key.verifying_key().to_bytes());
    let msg = b"hello room log";
    let sig = signing_key.sign(msg);
    let keys = vec![key(&public_hex, Some(Timestamp { seconds: 500, nanos: 0 }))];
    let ok = verify(
        &keys, &public_hex, KeyScheme::Ed25519, msg, &sig.to_bytes(),
        Timestamp { seconds: 1_000, nanos: 0 },
    )
    .unwrap();
    assert!(!ok, "message timestamped after revoked_at must not verify");
}

#[test]
fn signature_before_revocation_still_verifies() {
    let signing_key = SigningKey::generate(&mut OsRng);
    let public_hex = hex::encode(signing_key.verifying_key().to_bytes());
    let msg = b"hello room log";
    let sig = signing_key.sign(msg);
    let keys = vec![key(&public_hex, Some(Timestamp { seconds: 2_000, nanos: 0 }))];
    let ok = verify(
        &keys, &public_hex, KeyScheme::Ed25519, msg, &sig.to_bytes(),
        Timestamp { seconds: 1_000, nanos: 0 },
    )
    .unwrap();
    assert!(ok, "a signature made before revocation must still verify");
}

#[test]
fn tampered_message_against_a_known_key_does_not_verify() {
    let signing_key = SigningKey::generate(&mut OsRng);
    let public_hex = hex::encode(signing_key.verifying_key().to_bytes());
    let sig = signing_key.sign(b"hello room log");

    let keys = vec![key(&public_hex, None)];
    let ok = verify(
        &keys, &public_hex, KeyScheme::Ed25519,
        b"a different message entirely", &sig.to_bytes(),
        Timestamp { seconds: 1_000, nanos: 0 },
    )
    .unwrap();
    assert!(!ok, "a signature over a different message must not verify");
}

#[test]
fn claimed_scheme_mismatching_the_registered_key_does_not_verify() {
    let signing_key = SigningKey::generate(&mut OsRng);
    let public_hex = hex::encode(signing_key.verifying_key().to_bytes());
    let msg = b"hello room log";
    let sig = signing_key.sign(msg);
    let keys = vec![key(&public_hex, None)];
    let ok = verify(
        &keys, &public_hex, KeyScheme::Secp256k1Schnorr, msg, &sig.to_bytes(),
        Timestamp { seconds: 1_000, nanos: 0 },
    )
    .unwrap();
    assert!(!ok, "a scheme mismatch must not verify, regardless of a valid signature");
}

#[test]
fn unimplemented_scheme_matching_the_registered_key_errors_rather_than_silently_passing() {
    let public_hex = "aa".repeat(32);
    let keys = vec![AgentKeyRecord { scheme: KeyScheme::Secp256k1Schnorr, ..key(&public_hex, None) }];
    let err = verify(
        &keys, &public_hex, KeyScheme::Secp256k1Schnorr, b"msg", &[0u8; 64],
        Timestamp { seconds: 1_000, nanos: 0 },
    )
    .unwrap_err();
    assert!(err.message().contains("no implementation"));
}

#[test]
fn malformed_hex_public_key_errors_rather_than_panicking() {
    let keys = vec![key("not-hex-at-all", None)];
    let err = verify(
        &keys, "not-hex-at-all", KeyScheme::Ed25519, b"msg", &[0u8; 64],
        Timestamp { seconds: 1_000, nanos: 0 },
    )
    .unwrap_err();
    assert!(err.message().contains("hex"));
}

#[test]
fn wrong_length_signature_errors_rather_than_panicking() {
    let signing_key = SigningKey::generate(&mut OsRng);
    let public_hex = hex::encode(signing_key.verifying_key().to_bytes());
    let keys = vec![key(&public_hex, None)];
    let err = verify(
        &keys, &public_hex, KeyScheme::Ed25519, b"msg", &[0u8; 10],
        Timestamp { seconds: 1_000, nanos: 0 },
    )
    .unwrap_err();
    assert!(err.message().contains("64 bytes"));
}

#[test]
fn unknown_public_key_does_not_verify() {
    let signing_key = SigningKey::generate(&mut OsRng);
    let public_hex = hex::encode(signing_key.verifying_key().to_bytes());
    let msg = b"hello room log";
    let sig = signing_key.sign(msg);
    let keys: Vec<AgentKeyRecord> = vec![];
    let ok = verify(
        &keys, &public_hex, KeyScheme::Ed25519, msg, &sig.to_bytes(),
        Timestamp { seconds: 1_000, nanos: 0 },
    )
    .unwrap();
    assert!(!ok, "a public key not present in the agent's key list must not verify");
}

#[test]
fn a_message_timestamped_before_the_keys_own_creation_does_not_verify() {
    let signing_key = SigningKey::generate(&mut OsRng);
    let public_hex = hex::encode(signing_key.verifying_key().to_bytes());
    let msg = b"hello room log";
    let sig = signing_key.sign(msg);
    let keys = vec![key_with_created_at(&public_hex, Timestamp { seconds: 2_000, nanos: 0 })];
    let ok = verify(
        &keys, &public_hex, KeyScheme::Ed25519, msg, &sig.to_bytes(),
        Timestamp { seconds: 1_000, nanos: 0 }, // before the key was even created
    )
    .unwrap();
    assert!(!ok, "a message claiming to predate the key's own creation must not verify");
}

#[test]
fn a_message_timestamped_after_creation_and_before_revocation_still_verifies() {
    let signing_key = SigningKey::generate(&mut OsRng);
    let public_hex = hex::encode(signing_key.verifying_key().to_bytes());
    let msg = b"hello room log";
    let sig = signing_key.sign(msg);
    let keys = vec![key_with_created_at(&public_hex, Timestamp { seconds: 500, nanos: 0 })];
    let ok = verify(
        &keys, &public_hex, KeyScheme::Ed25519, msg, &sig.to_bytes(),
        Timestamp { seconds: 1_000, nanos: 0 },
    )
    .unwrap();
    assert!(ok, "a message timestamped comfortably after creation and with no revocation must still verify");
}

#[test]
fn a_key_with_no_created_at_set_is_unaffected_legacy_behavior() {
    let signing_key = SigningKey::generate(&mut OsRng);
    let public_hex = hex::encode(signing_key.verifying_key().to_bytes());
    let msg = b"hello room log";
    let sig = signing_key.sign(msg);
    let keys = vec![key(&public_hex, None)];
    let ok = verify(
        &keys, &public_hex, KeyScheme::Ed25519, msg, &sig.to_bytes(),
        Timestamp { seconds: 1, nanos: 0 }, // long before any real key would exist -- must not matter
    )
    .unwrap();
    assert!(ok, "a legacy key with no created_at must be unaffected by this check");
}
