use ed25519_dalek::{Signer, SigningKey};
use identity_crypto::agent_key::{
    cert_transcript, verify, verify_delegated, AgentKeyRecord, CLOCK_SKEW_TOLERANCE_SECONDS,
};
use identity_crypto::{DelegationCert, IdentityError, KeyScheme, Timestamp};
use rand::rngs::OsRng;

fn at(seconds: i64, nanos: i32) -> Timestamp {
    Timestamp { seconds, nanos }
}

fn record(public_key_hex: &str, is_device_key: bool) -> AgentKeyRecord {
    AgentKeyRecord {
        public_key: public_key_hex.to_string(),
        scheme: KeyScheme::Ed25519,
        is_device_key,
        created_at: None,
        revoked_at: None,
    }
}

struct Chain {
    device_hex: String,
    session_hex: String,
    cert: DelegationCert,
    msg: Vec<u8>,
    sig: Vec<u8>,
}

fn chain(not_before: i64, not_after: i64) -> Chain {
    let device = SigningKey::generate(&mut OsRng);
    let session = SigningKey::generate(&mut OsRng);
    let mut cert = DelegationCert {
        agent_id: "agent-1".into(),
        device_public_key: device.verifying_key().to_bytes().to_vec(),
        session_public_key: session.verifying_key().to_bytes().to_vec(),
        not_before_unix_seconds: not_before,
        not_after_unix_seconds: not_after,
        signature: Vec::new(),
    };
    cert.signature = device.sign(&cert_transcript(&cert).unwrap()).to_bytes().to_vec();
    let msg = b"delegated message".to_vec();
    let sig = session.sign(&msg).to_bytes().to_vec();
    Chain {
        device_hex: hex::encode(device.verifying_key().to_bytes()),
        session_hex: hex::encode(session.verifying_key().to_bytes()),
        cert,
        msg,
        sig,
    }
}

fn run(c: &Chain, keys: &[AgentKeyRecord], receipt: Timestamp) -> Result<bool, IdentityError> {
    verify_delegated(keys, "agent-1", &c.cert, &c.session_hex, &c.msg, &c.sig, receipt)
}

#[test]
fn the_tolerance_is_thirty_seconds() {
    assert_eq!(CLOCK_SKEW_TOLERANCE_SECONDS, 30);
}

#[test]
fn the_window_is_widened_by_exactly_the_tolerance() {
    let c = chain(1_000, 2_000);
    let keys = vec![record(&c.device_hex, true)];
    assert!(run(&c, &keys, at(970, 0)).unwrap());
    assert!(!run(&c, &keys, at(969, 0)).unwrap());
    assert!(run(&c, &keys, at(2_029, 0)).unwrap());
    assert!(!run(&c, &keys, at(2_030, 0)).unwrap());
}

#[test]
fn an_overflowing_window_bound_rejects_rather_than_wrapping() {
    let c = chain(0, i64::MAX);
    let keys = vec![record(&c.device_hex, true)];
    assert!(!run(&c, &keys, at(100, 0)).unwrap());
    let c = chain(i64::MIN, 100);
    let keys = vec![record(&c.device_hex, true)];
    assert!(!run(&c, &keys, at(50, 0)).unwrap());
}

#[test]
fn a_device_key_created_after_receipt_plus_tolerance_is_rejected() {
    let c = chain(0, 10_000);
    let mut key = record(&c.device_hex, true);
    key.created_at = Some(at(1_030, 0));
    assert!(run(&c, &[key.clone()], at(1_000, 0)).unwrap());
    key.created_at = Some(at(1_031, 0));
    assert!(!run(&c, &[key], at(1_000, 0)).unwrap());
}

#[test]
fn a_non_device_record_for_the_device_key_does_not_count() {
    let c = chain(0, 10_000);
    assert!(!run(&c, &[record(&c.device_hex, false)], at(100, 0)).unwrap());
}

#[test]
fn a_device_key_of_another_scheme_is_rejected() {
    let c = chain(0, 10_000);
    let mut key = record(&c.device_hex, true);
    key.scheme = KeyScheme::Secp256k1Schnorr;
    assert!(!run(&c, &[key], at(100, 0)).unwrap());
}

#[test]
fn a_cert_for_another_agent_is_rejected() {
    let c = chain(0, 10_000);
    let keys = vec![record(&c.device_hex, true)];
    let result = verify_delegated(
        &keys, "agent-2", &c.cert, &c.session_hex, &c.msg, &c.sig, at(100, 0),
    );
    assert_eq!(result, Ok(false));
}

#[test]
fn a_claimed_session_key_other_than_the_certs_is_rejected() {
    let c = chain(0, 10_000);
    let other = chain(0, 10_000);
    let keys = vec![record(&c.device_hex, true)];
    let result = verify_delegated(
        &keys, "agent-1", &c.cert, &other.session_hex, &c.msg, &c.sig, at(100, 0),
    );
    assert_eq!(result, Ok(false));
}

#[test]
fn a_tampered_cert_window_breaks_the_cert_signature() {
    let mut c = chain(0, 10_000);
    c.cert.not_after_unix_seconds = 20_000;
    let keys = vec![record(&c.device_hex, true)];
    assert_eq!(run(&c, &keys, at(100, 0)), Ok(false));
}

#[test]
fn a_short_device_key_in_a_cert_is_an_error() {
    let mut c = chain(0, 10_000);
    c.cert.device_public_key.pop();
    let keys = vec![record(&hex::encode(&c.cert.device_public_key), true)];
    assert_eq!(run(&c, &keys, at(100, 0)), Err(IdentityError::CertDeviceKeyLength));
}

#[test]
fn a_short_session_key_in_a_cert_is_an_error() {
    let mut c = chain(0, 10_000);
    c.cert.session_public_key.pop();
    let keys = vec![record(&c.device_hex, true)];
    assert_eq!(run(&c, &keys, at(100, 0)), Err(IdentityError::CertSessionKeyLength));
}

#[test]
fn cert_transcript_rejects_wrong_length_keys() {
    let cert = DelegationCert {
        agent_id: "a".into(),
        device_public_key: vec![1u8; 32],
        session_public_key: vec![2u8; 33],
        not_before_unix_seconds: 0,
        not_after_unix_seconds: 1,
        signature: Vec::new(),
    };
    assert_eq!(cert_transcript(&cert), Err(IdentityError::CertSessionKeyLength));
}

#[test]
fn a_message_timestamped_exactly_at_revocation_does_not_verify() {
    let signing_key = SigningKey::generate(&mut OsRng);
    let public_hex = hex::encode(signing_key.verifying_key().to_bytes());
    let msg = b"m";
    let sig = signing_key.sign(msg).to_bytes();
    let mut key = record(&public_hex, false);
    key.revoked_at = Some(at(1_000, 5));
    assert!(!verify(&[key.clone()], &public_hex, KeyScheme::Ed25519, msg, &sig, at(1_000, 5)).unwrap());
    assert!(verify(&[key], &public_hex, KeyScheme::Ed25519, msg, &sig, at(1_000, 4)).unwrap());
}

#[test]
fn creation_time_compares_nanoseconds_too() {
    let signing_key = SigningKey::generate(&mut OsRng);
    let public_hex = hex::encode(signing_key.verifying_key().to_bytes());
    let msg = b"m";
    let sig = signing_key.sign(msg).to_bytes();
    let mut key = record(&public_hex, false);
    key.created_at = Some(at(1_000, 5));
    assert!(verify(&[key.clone()], &public_hex, KeyScheme::Ed25519, msg, &sig, at(1_000, 5)).unwrap());
    assert!(!verify(&[key], &public_hex, KeyScheme::Ed25519, msg, &sig, at(1_000, 4)).unwrap());
}

#[test]
fn an_unspecified_scheme_matching_the_registered_key_is_an_error() {
    let public_hex = "aa".repeat(32);
    let mut key = record(&public_hex, false);
    key.scheme = KeyScheme::Unspecified;
    let result = verify(&[key], &public_hex, KeyScheme::Unspecified, b"m", &[0u8; 64], at(1, 0));
    assert_eq!(result, Err(IdentityError::SchemeUnspecified));
}

#[test]
fn the_first_record_for_a_key_decides() {
    let signing_key = SigningKey::generate(&mut OsRng);
    let public_hex = hex::encode(signing_key.verifying_key().to_bytes());
    let msg = b"m";
    let sig = signing_key.sign(msg).to_bytes();
    let mut revoked = record(&public_hex, false);
    revoked.revoked_at = Some(at(1, 0));
    let live = record(&public_hex, false);
    assert!(!verify(&[revoked.clone(), live.clone()], &public_hex, KeyScheme::Ed25519, msg, &sig, at(10, 0)).unwrap());
    assert!(verify(&[live, revoked], &public_hex, KeyScheme::Ed25519, msg, &sig, at(10, 0)).unwrap());
}
