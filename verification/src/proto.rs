//! The wire messages whose signed content the transcripts encode: a
//! session-key delegation certificate and a signed delivery batch.

use vstd::prelude::*;

verus! {

/// A point in time: whole seconds since the Unix epoch plus nanoseconds.
#[derive(Clone, Copy, Debug, PartialEq, Eq, Structural)]
pub struct Timestamp {
    pub seconds: i64,
    pub nanos: i32,
}

/// A device key vouching for a session key over a validity window.
#[derive(Clone, Debug, PartialEq)]
pub struct DelegationCert {
    pub agent_id: String,
    pub device_public_key: Vec<u8>,
    pub session_public_key: Vec<u8>,
    pub not_before_unix_seconds: i64,
    pub not_after_unix_seconds: i64,
    pub signature: Vec<u8>,
}

/// How the delivering service established a message's authorship. Its
/// discriminants are 0, 1, 2 and 3 in declaration order.
#[derive(Clone, Copy, Debug, PartialEq, Eq, Structural)]
pub enum VerificationOutcome {
    Unspecified,
    DirectKey,
    DelegatedKey,
    System,
}

/// One message inside a signed delivery batch.
#[derive(Clone, Debug, PartialEq)]
pub struct AttestedMessage {
    pub message_id: String,
    pub room_id: String,
    pub author_agent_id: String,
    pub body_text: String,
    pub verification_outcome: i32,
    pub delegation_cert: Option<DelegationCert>,
}

/// A delivery batch, signed once by the delivering service's own key.
#[derive(Clone, Debug, PartialEq)]
pub struct DeliveryAttestation {
    pub recipient_device_public_keys: Vec<Vec<u8>>,
    pub key_id: String,
    pub batch_sequence: u64,
    pub attested_at: Option<Timestamp>,
    pub messages: Vec<AttestedMessage>,
    pub signature: Vec<u8>,
}

/// What a delegation certificate contributes to a delivery transcript:
/// everything but its own signature.
pub struct CertContent {
    pub agent_id: Seq<char>,
    pub device_public_key: Seq<u8>,
    pub session_public_key: Seq<u8>,
    pub not_before: i64,
    pub not_after: i64,
}

/// What one attested message contributes to a delivery transcript.
pub struct MessageContent {
    pub message_id: Seq<char>,
    pub room_id: Seq<char>,
    pub author_agent_id: Seq<char>,
    pub body_text: Seq<char>,
    pub verification_outcome: i32,
    pub delegation_cert: Option<CertContent>,
}

/// What a delivery attestation's signature covers: everything but the
/// signature itself, with an absent `attested_at` read as time zero.
pub struct AttestationContent {
    pub recipient_device_public_keys: Seq<Seq<u8>>,
    pub key_id: Seq<char>,
    pub batch_sequence: u64,
    pub attested_at_seconds: i64,
    pub attested_at_nanos: i32,
    pub messages: Seq<MessageContent>,
}

impl DelegationCert {
    pub open spec fn signed_content(&self) -> CertContent {
        CertContent {
            agent_id: self.agent_id@,
            device_public_key: self.device_public_key@,
            session_public_key: self.session_public_key@,
            not_before: self.not_before_unix_seconds,
            not_after: self.not_after_unix_seconds,
        }
    }
}

pub open spec fn cert_content(cert: Option<DelegationCert>) -> Option<CertContent> {
    match cert {
        None => None,
        Some(c) => Some(c.signed_content()),
    }
}

impl AttestedMessage {
    pub open spec fn signed_content(&self) -> MessageContent {
        MessageContent {
            message_id: self.message_id@,
            room_id: self.room_id@,
            author_agent_id: self.author_agent_id@,
            body_text: self.body_text@,
            verification_outcome: self.verification_outcome,
            delegation_cert: cert_content(self.delegation_cert),
        }
    }
}

impl DeliveryAttestation {
    pub open spec fn signed_content(&self) -> AttestationContent {
        AttestationContent {
            recipient_device_public_keys: self.recipient_device_public_keys@.map_values(
                |k: Vec<u8>| k@,
            ),
            key_id: self.key_id@,
            batch_sequence: self.batch_sequence,
            attested_at_seconds: match self.attested_at {
                Some(t) => t.seconds,
                None => 0,
            },
            attested_at_nanos: match self.attested_at {
                Some(t) => t.nanos,
                None => 0,
            },
            messages: self.messages@.map_values(|m: AttestedMessage| m.signed_content()),
        }
    }
}

} // verus!
