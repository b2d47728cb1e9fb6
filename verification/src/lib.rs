//! Canonical signed transcripts and ed25519 verification for the agent
//! identity design.

pub mod agent_key;
pub mod binding;
pub mod ed25519;
pub mod error;
pub mod hex_text;
pub mod key_scheme;
pub mod layout;
pub mod proto;
pub mod transcripts;

pub use error::IdentityError;
pub use key_scheme::KeyScheme;
pub use proto::{
    AttestedMessage, DelegationCert, DeliveryAttestation, Timestamp, VerificationOutcome,
};

use vstd::prelude::*;
use vstd::utf8::encode_utf8;

use crate::ed25519::{ed25519_point_decodes, ed25519_signature_valid};
use crate::hex_text::hex_decoded;

verus! {

/// The raw key a hex-encoded ed25519 public key names.
pub open spec fn decoded_public_key(public_key_hex: Seq<char>) -> Result<Seq<u8>, IdentityError> {
    match hex_decoded(encode_utf8(public_key_hex)) {
        None => Err(IdentityError::PublicKeyNotHex),
        Some(bytes) => if bytes.len() == 32 {
            Ok(bytes)
        } else {
            Err(IdentityError::PublicKeyLength)
        },
    }
}

/// What verifying a raw ed25519 signature against a hex-encoded public key
/// gives: an error for a malformed key or signature, else whether the
/// signature is valid.
pub open spec fn ed25519_outcome(public_key_hex: Seq<char>, message: Seq<u8>, signature: Seq<u8>) -> Result<bool, IdentityError> {
    match decoded_public_key(public_key_hex) {
        Err(e) => Err(e),
        Ok(key) => if !ed25519_point_decodes(key) {
            Err(IdentityError::InvalidPublicKey)
        } else if signature.len() != 64 {
            Err(IdentityError::SignatureLength)
        } else {
            Ok(ed25519_signature_valid(key, message, signature))
        },
    }
}

fn array_32(bytes: &[u8]) -> (out: [u8; 32])
    requires
        bytes@.len() == 32,
    ensures
        out@ == bytes@,
{
    let mut out = [0u8; 32];
    let mut i: usize = 0;
    while i < 32
        invariant
            i <= 32,
            bytes@.len() == 32,
            forall|j: int| 0 <= j < i ==> out@[j] == bytes@[j],
        decreases 32 - i,
    {
        out[i] = bytes[i];
        i = i + 1;
    }
    assert(out@ =~= bytes@);
    out
}

fn array_64(bytes: &[u8]) -> (out: [u8; 64])
    requires
        bytes@.len() == 64,
    ensures
        out@ == bytes@,
{
    let mut out = [0u8; 64];
    let mut i: usize = 0;
    while i < 64
        invariant
            i <= 64,
            bytes@.len() == 64,
            forall|j: int| 0 <= j < i ==> out@[j] == bytes@[j],
        decreases 64 - i,
    {
        out[i] = bytes[i];
        i = i + 1;
    }
    assert(out@ =~= bytes@);
    out
}

/// Decode a hex-encoded ed25519 public key into its raw 32 bytes.
pub fn hex_decode_32(public_key_hex: &str) -> (r: Result<[u8; 32], IdentityError>)
    ensures
        r is Ok <==> decoded_public_key(public_key_hex@) is Ok,
        r matches Ok(key) ==> decoded_public_key(public_key_hex@) == Ok::<Seq<u8>, IdentityError>(key@),
        r matches Err(e) ==> decoded_public_key(public_key_hex@) == Err::<Seq<u8>, IdentityError>(e),
{
    match hex_text::hex_decode(public_key_hex.as_bytes()) {
        Err(_) => Err(IdentityError::PublicKeyNotHex),
        Ok(bytes) => if bytes.len() == 32 {
            Ok(array_32(bytes.as_slice()))
        } else {
            Err(IdentityError::PublicKeyLength)
        },
    }
}

/// A hex-encoded public key that names a curve point, as raw bytes.
pub(crate) fn decode_verifying_key(public_key_hex: &str) -> (r: Result<[u8; 32], IdentityError>)
    ensures
        match r {
            Ok(key) => decoded_public_key(public_key_hex@) == Ok::<Seq<u8>, IdentityError>(key@)
                && ed25519_point_decodes(key@),
            Err(e) => match decoded_public_key(public_key_hex@) {
                Err(f) => e == f,
                Ok(key) => !ed25519_point_decodes(key) && e == IdentityError::InvalidPublicKey,
            },
        },
{
    let key = hex_decode_32(public_key_hex)?;
    match ed25519::verifying_key_from_bytes(&key) {
        Ok(_) => Ok(key),
        Err(_) => Err(IdentityError::InvalidPublicKey),
    }
}

/// A raw signature of the one length ed25519 signatures have.
pub(crate) fn decode_signature(signature: &[u8]) -> (r: Result<[u8; 64], IdentityError>)
    ensures
        match r {
            Ok(sig) => signature@.len() == 64 && sig@ == signature@,
            Err(e) => signature@.len() != 64 && e == IdentityError::SignatureLength,
        },
{
    if signature.len() == 64 {
        Ok(array_64(signature))
    } else {
        Err(IdentityError::SignatureLength)
    }
}

/// Verify a raw ed25519 signature against a hex-encoded public key.
pub fn verify_ed25519(public_key_hex: &str, message: &[u8], signature: &[u8]) -> (r: Result<
    bool,
    IdentityError,
>)
    ensures
        r == ed25519_outcome(public_key_hex@, message@, signature@),
{
    let key = decode_verifying_key(public_key_hex)?;
    let sig = decode_signature(signature)?;
    Ok(ed25519::ed25519_verify(&key, message, &sig))
}

} // verus!
