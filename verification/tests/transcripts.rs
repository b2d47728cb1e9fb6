use identity_crypto::transcripts::{
    delegation_transcript, delivery_attestation_transcript, rename_transcript,
    revocation_transcript, rotation_transcript, self_proof_transcript,
    session_delegation_transcript,
};
use identity_crypto::{
    AttestedMessage, DelegationCert, DeliveryAttestation, Timestamp, VerificationOutcome,
};

fn sample_attested_message(id: &str) -> AttestedMessage {
    AttestedMessage {
        message_id: id.into(),
        room_id: "room-general".into(),
        author_agent_id: "agent-2".into(),
        body_text: "hello".into(),
        verification_outcome: VerificationOutcome::DirectKey as i32,
        delegation_cert: None,
    }
}

fn sample_attestation(messages: Vec<AttestedMessage>) -> DeliveryAttestation {
    DeliveryAttestation {
        recipient_device_public_keys: vec![vec![7u8; 32]],
        key_id: "mm-key-2026-09".into(),
        batch_sequence: 1,
        attested_at: Some(Timestamp { seconds: 100, nanos: 0 }),
        messages,
        signature: Vec::new(),
    }
}

#[test]
fn delivery_attestation_transcript_has_stable_domain() {
    let t = delivery_attestation_transcript(&sample_attestation(vec![sample_attested_message("m1")]));
    assert!(t.starts_with(b"identitycrypto.delivery-attestation.v1\0"));
}

#[test]
fn delivery_attestation_transcript_binds_message_order() {
    let a = sample_attestation(vec![sample_attested_message("m1"), sample_attested_message("m2")]);
    let b = sample_attestation(vec![sample_attested_message("m2"), sample_attested_message("m1")]);
    assert_ne!(
        delivery_attestation_transcript(&a),
        delivery_attestation_transcript(&b),
        "reordering the same messages must change the transcript"
    );
}

#[test]
fn delivery_attestation_transcript_binds_body_text() {
    let mut tampered = sample_attested_message("m1");
    tampered.body_text = "goodbye".into();
    assert_ne!(
        delivery_attestation_transcript(&sample_attestation(vec![sample_attested_message("m1")])),
        delivery_attestation_transcript(&sample_attestation(vec![tampered])),
        "a substituted body_text must change the transcript"
    );
}

#[test]
fn delivery_attestation_transcript_binds_recipient_and_sequence() {
    let msgs = vec![sample_attested_message("m1")];
    let mut a = sample_attestation(msgs.clone());
    let mut b = sample_attestation(msgs);
    b.recipient_device_public_keys = vec![vec![9u8; 32]];
    assert_ne!(delivery_attestation_transcript(&a), delivery_attestation_transcript(&b));
    a.batch_sequence = 2;
    let c = sample_attestation(vec![sample_attested_message("m1")]);
    assert_ne!(delivery_attestation_transcript(&a), delivery_attestation_transcript(&c));
}

#[test]
fn delivery_attestation_transcript_binds_the_full_recipient_list_not_just_membership() {
    let msgs = vec![sample_attested_message("m1")];
    let mut one_key = sample_attestation(msgs.clone());
    one_key.recipient_device_public_keys = vec![vec![7u8; 32]];
    let mut two_keys = sample_attestation(msgs);
    two_keys.recipient_device_public_keys = vec![vec![7u8; 32], vec![8u8; 32]];
    assert_ne!(
        delivery_attestation_transcript(&one_key),
        delivery_attestation_transcript(&two_keys),
        "adding an extra recipient device key must change the transcript"
    );
}

#[test]
fn delivery_attestation_transcript_binds_verification_outcome_without_truncation() {
    let mut system = sample_attested_message("m1");
    system.verification_outcome = VerificationOutcome::System as i32;
    assert_ne!(
        delivery_attestation_transcript(&sample_attestation(vec![sample_attested_message("m1")])),
        delivery_attestation_transcript(&sample_attestation(vec![system])),
    );
}

#[test]
fn delivery_attestation_transcript_binds_attested_at_nanos() {
    let msgs = vec![sample_attested_message("m1")];
    let mut a = sample_attestation(msgs.clone());
    let mut b = sample_attestation(msgs);
    a.attested_at = Some(Timestamp { seconds: 100, nanos: 0 });
    b.attested_at = Some(Timestamp { seconds: 100, nanos: 1 });
    assert_ne!(delivery_attestation_transcript(&a), delivery_attestation_transcript(&b));
}

#[test]
fn delivery_attestation_transcript_binds_delegation_cert_presence() {
    let mut delegated = sample_attested_message("m1");
    delegated.delegation_cert = Some(DelegationCert {
        agent_id: "agent-2".into(),
        device_public_key: vec![1u8; 32],
        session_public_key: vec![2u8; 32],
        not_before_unix_seconds: 0,
        not_after_unix_seconds: 100,
        signature: vec![3u8; 64],
    });
    assert_ne!(
        delivery_attestation_transcript(&sample_attestation(vec![sample_attested_message("m1")])),
        delivery_attestation_transcript(&sample_attestation(vec![delegated])),
    );
}

#[test]
fn delivery_attestation_transcript_length_prefixes_delegation_cert_key_bytes() {
    let mut a = sample_attested_message("m1");
    a.delegation_cert = Some(DelegationCert {
        agent_id: "agent-2".into(),
        device_public_key: vec![1u8; 31],
        session_public_key: [1u8, 2u8].repeat(33),
        not_before_unix_seconds: 0,
        not_after_unix_seconds: 100,
        signature: vec![3u8; 64],
    });
    let mut b = sample_attested_message("m1");
    b.delegation_cert = Some(DelegationCert {
        agent_id: "agent-2".into(),
        device_public_key: vec![1u8; 32],
        session_public_key: {
            let mut v = [1u8, 2u8].repeat(33);
            v.pop();
            v
        },
        not_before_unix_seconds: 0,
        not_after_unix_seconds: 100,
        signature: vec![3u8; 64],
    });
    assert_ne!(
        delivery_attestation_transcript(&sample_attestation(vec![a])),
        delivery_attestation_transcript(&sample_attestation(vec![b])),
        "differing key-length boundaries must not collide to the same transcript bytes"
    );
}

#[test]
fn self_proof_transcript_has_stable_domain_and_layout() {
    let key = [7u8; 32];
    let t = self_proof_transcript(b"nonce", &key, 1);
    assert!(t.starts_with(b"grorg.key-challenge.v1\0"));
    // domain(23) + len-prefix(4) + "nonce"(5) + key(32) + scheme(1)
    assert_eq!(t.len(), 23 + 4 + 5 + 32 + 1);
    assert_eq!(&t[t.len() - 1..], &[1u8]);
}

#[test]
fn delegation_transcript_binds_agent_id() {
    let key = [9u8; 32];
    let a = delegation_transcript("agent-a", &key, 1);
    let b = delegation_transcript("agent-b", &key, 1);
    assert_ne!(a, b, "different agent_id must produce a different transcript");
}

#[test]
fn different_domains_never_collide_for_the_same_inputs() {
    let key = [3u8; 32];
    let self_proof = self_proof_transcript(b"x", &key, 1);
    let delegation = delegation_transcript("x", &key, 1);
    assert_ne!(self_proof, delegation);
}

#[test]
fn revocation_transcript_binds_agent_id_and_key() {
    let key_a = [1u8; 32];
    let key_b = [2u8; 32];
    assert_ne!(
        revocation_transcript("agent-a", &key_a),
        revocation_transcript("agent-a", &key_b),
    );
    assert_ne!(
        revocation_transcript("agent-a", &key_a),
        revocation_transcript("agent-b", &key_a),
    );
}

#[test]
fn rotation_transcript_binds_agent_id_and_new_key() {
    let key_a = [1u8; 32];
    let key_b = [2u8; 32];
    assert_ne!(
        rotation_transcript("agent-a", &key_a),
        rotation_transcript("agent-a", &key_b),
    );
}

#[test]
fn rename_transcript_has_stable_domain_and_layout() {
    let t = rename_transcript(b"nonce", "agent-a", "new-name");
    assert!(t.starts_with(b"grorg.agent-rename.v1\0"));
    // domain(22) + len-prefix(4) + "nonce"(5) + len-prefix(4) + "agent-a"(7) + len-prefix(4) + "new-name"(8)
    assert_eq!(t.len(), 22 + 4 + 5 + 4 + 7 + 4 + 8);
}

#[test]
fn rename_transcript_binds_nonce() {
    let a = rename_transcript(b"nonce-a", "agent-a", "same-name");
    let b = rename_transcript(b"nonce-b", "agent-a", "same-name");
    assert_ne!(a, b, "different nonce must produce a different transcript -- this is what makes replay impossible");
}

#[test]
fn rename_transcript_binds_agent_id() {
    let a = rename_transcript(b"nonce", "agent-a", "same-name");
    let b = rename_transcript(b"nonce", "agent-b", "same-name");
    assert_ne!(a, b, "different agent_id must produce a different transcript");
}

#[test]
fn rename_transcript_binds_new_name() {
    let a = rename_transcript(b"nonce", "agent-a", "old-name");
    let b = rename_transcript(b"nonce", "agent-a", "new-name");
    assert_ne!(a, b, "different new_name must produce a different transcript");
}

#[test]
fn rename_transcript_domain_never_collides_with_self_proof_transcript() {
    // Both embed a nonce; different domains and different trailing
    // shapes must still never collide.
    let key = [3u8; 32];
    let self_proof = self_proof_transcript(b"nonce", &key, 1);
    let rename = rename_transcript(b"nonce", "agent-x", "agent-x");
    assert_ne!(self_proof, rename);
}

#[test]
fn session_delegation_transcript_has_stable_domain_and_layout() {
    let device = [4u8; 32];
    let session = [5u8; 32];
    let t = session_delegation_transcript("agent-a", &device, &session, 100, 200);
    assert!(t.starts_with(b"gait.session-delegation.v1\0"));
    // domain(27) + len-prefix(4) + "agent-a"(7) + device(32) + session(32) + not_before(8) + not_after(8)
    assert_eq!(t.len(), 27 + 4 + 7 + 32 + 32 + 8 + 8);
}

#[test]
fn session_delegation_transcript_binds_the_window() {
    let device = [4u8; 32];
    let session = [5u8; 32];
    let a = session_delegation_transcript("agent-a", &device, &session, 100, 200);
    let b = session_delegation_transcript("agent-a", &device, &session, 100, 999);
    assert_ne!(a, b, "a different not_after must change the transcript");
}

#[test]
fn self_proof_transcript_exact_bytes() {
    let key = [7u8; 32];
    let t = self_proof_transcript(b"ab", &key, 2);
    let mut expected = b"grorg.key-challenge.v1\0".to_vec();
    expected.extend_from_slice(&[0, 0, 0, 2, b'a', b'b']);
    expected.extend_from_slice(&key);
    expected.push(2);
    assert_eq!(t, expected);
}

#[test]
fn rename_transcript_exact_bytes() {
    let t = rename_transcript(b"n", "a", "é");
    let mut expected = b"grorg.agent-rename.v1\0".to_vec();
    expected.extend_from_slice(&[0, 0, 0, 1, b'n']);
    expected.extend_from_slice(&[0, 0, 0, 1, b'a']);
    // The name is length-prefixed by its UTF-8 byte count, not its char count.
    expected.extend_from_slice(&[0, 0, 0, 2, 0xc3, 0xa9]);
    assert_eq!(t, expected);
}

#[test]
fn revocation_and_rotation_exact_bytes() {
    let key = [9u8; 32];
    let mut expected = b"grorg.key-revocation.v1\0".to_vec();
    expected.extend_from_slice(&[0, 0, 0, 3, b'a', b'-', b'1']);
    expected.extend_from_slice(&key);
    assert_eq!(revocation_transcript("a-1", &key), expected);
    let mut expected = b"grorg.root-rotation.v1\0".to_vec();
    expected.extend_from_slice(&[0, 0, 0, 3, b'a', b'-', b'1']);
    expected.extend_from_slice(&key);
    assert_eq!(rotation_transcript("a-1", &key), expected);
}

#[test]
fn delegation_transcript_exact_bytes() {
    let key = [1u8; 32];
    let mut expected = b"grorg.key-delegation.v1\0".to_vec();
    expected.extend_from_slice(&[0, 0, 0, 0]);
    expected.extend_from_slice(&key);
    expected.push(1);
    assert_eq!(delegation_transcript("", &key, 1), expected);
}

#[test]
fn session_delegation_transcript_writes_signed_bounds_big_endian() {
    let device = [4u8; 32];
    let session = [5u8; 32];
    let t = session_delegation_transcript("x", &device, &session, -1, 258);
    let tail = &t[t.len() - 16..];
    assert_eq!(&tail[..8], &[0xff; 8]);
    assert_eq!(&tail[8..], &[0, 0, 0, 0, 0, 0, 1, 2]);
}

#[test]
fn the_scheme_byte_keeps_only_the_low_eight_bits() {
    // The scheme is written as one byte: discriminants 256 apart share it.
    let key = [3u8; 32];
    assert_eq!(self_proof_transcript(b"n", &key, 1), self_proof_transcript(b"n", &key, 257));
}

#[test]
fn delivery_attestation_transcript_exact_bytes() {
    let attestation = DeliveryAttestation {
        recipient_device_public_keys: vec![vec![0xaa, 0xbb]],
        key_id: "k".into(),
        batch_sequence: 0x0102,
        attested_at: Some(Timestamp { seconds: 3, nanos: 4 }),
        messages: vec![AttestedMessage {
            message_id: "m".into(),
            room_id: "r".into(),
            author_agent_id: "a".into(),
            body_text: "b".into(),
            verification_outcome: VerificationOutcome::System as i32,
            delegation_cert: Some(DelegationCert {
                agent_id: "a".into(),
                device_public_key: vec![1],
                session_public_key: vec![2, 3],
                not_before_unix_seconds: 5,
                not_after_unix_seconds: 6,
                signature: vec![9; 64],
            }),
        }],
        signature: vec![8; 64],
    };
    let mut expected = b"identitycrypto.delivery-attestation.v1\0".to_vec();
    expected.extend_from_slice(&[0, 0, 0, 1, 0, 0, 0, 2, 0xaa, 0xbb]);
    expected.extend_from_slice(&[0, 0, 0, 1, b'k']);
    expected.extend_from_slice(&[0, 0, 0, 0, 0, 0, 1, 2]);
    expected.extend_from_slice(&[0, 0, 0, 0, 0, 0, 0, 3, 0, 0, 0, 4]);
    for field in [b'm', b'r', b'a', b'b'] {
        expected.extend_from_slice(&[0, 0, 0, 1, field]);
    }
    expected.extend_from_slice(&[0, 0, 0, 3]);
    expected.push(1);
    expected.extend_from_slice(&[0, 0, 0, 1, b'a']);
    expected.extend_from_slice(&[0, 0, 0, 1, 1]);
    expected.extend_from_slice(&[0, 0, 0, 2, 2, 3]);
    expected.extend_from_slice(&[0, 0, 0, 0, 0, 0, 0, 5, 0, 0, 0, 0, 0, 0, 0, 6]);
    assert_eq!(delivery_attestation_transcript(&attestation), expected);
}

#[test]
fn delivery_attestation_transcript_does_not_cover_signatures() {
    let mut a = sample_attestation(vec![sample_attested_message("m1")]);
    let before = delivery_attestation_transcript(&a);
    a.signature = vec![1u8; 64];
    assert_eq!(delivery_attestation_transcript(&a), before);
}

#[test]
fn an_absent_attested_at_reads_as_time_zero() {
    let msgs = vec![sample_attested_message("m1")];
    let mut a = sample_attestation(msgs.clone());
    let mut b = sample_attestation(msgs);
    a.attested_at = None;
    b.attested_at = Some(Timestamp { seconds: 0, nanos: 0 });
    assert_eq!(delivery_attestation_transcript(&a), delivery_attestation_transcript(&b));
}

#[test]
fn every_domain_differs_from_every_other() {
    let key = [0u8; 32];
    let all = [
        self_proof_transcript(b"", &key, 0),
        rename_transcript(b"", "", ""),
        delegation_transcript("", &key, 0),
        revocation_transcript("", &key),
        rotation_transcript("", &key),
        session_delegation_transcript("", &key, &key, 0, 0),
        delivery_attestation_transcript(&DeliveryAttestation {
            recipient_device_public_keys: Vec::new(),
            key_id: String::new(),
            batch_sequence: 0,
            attested_at: None,
            messages: Vec::new(),
            signature: Vec::new(),
        }),
    ];
    for i in 0..all.len() {
        for j in 0..all.len() {
            if i != j {
                assert_ne!(all[i], all[j]);
            }
        }
    }
}
