//! The two ed25519 operations this crate needs from `ed25519-dalek`.

use vstd::prelude::*;

use ed25519_dalek::{Signature, SignatureError, Verifier, VerifyingKey};

verus! {

#[verifier::external_type_specification]
#[verifier::external_body]
pub struct ExVerifyingKey(VerifyingKey);

#[verifier::external_type_specification]
#[verifier::external_body]
pub struct ExSignatureError(SignatureError);

/// Whether 32 bytes decompress to a point of the ed25519 curve, as
/// `VerifyingKey::from_bytes` decides.
pub uninterp spec fn ed25519_point_decodes(public_key: Seq<u8>) -> bool;

/// Whether `VerifyingKey::verify` accepts a 64-byte signature over a
/// message under a 32-byte public key.
pub uninterp spec fn ed25519_signature_valid(
    public_key: Seq<u8>,
    message: Seq<u8>,
    signature: Seq<u8>,
) -> bool;

/// `VerifyingKey::from_bytes`: succeeds exactly on the byte strings that
/// decompress to a curve point.
#[verifier::external_body]
pub(crate) fn verifying_key_from_bytes(public_key: &[u8; 32]) -> (r: Result<
    VerifyingKey,
    SignatureError,
>)
    ensures
        r is Ok <==> ed25519_point_decodes(public_key@),
{
    VerifyingKey::from_bytes(public_key)
}

/// `Verifier::verify` of `VerifyingKey`, with the key and the signature
/// given as bytes: the result is whether the signature is valid, a
/// function of the key, the message and the signature alone. The body
/// rebuilds the two values from their bytes (`VerifyingKey::from_bytes`,
/// which the `requires` makes succeed, and the infallible
/// `Signature::from_bytes`) so that the contract can speak of plain bytes.
#[verifier::external_body]
pub(crate) fn ed25519_verify(public_key: &[u8; 32], message: &[u8], signature: &[u8; 64]) -> (r:
    bool)
    requires
        ed25519_point_decodes(public_key@),
    ensures
        r == ed25519_signature_valid(public_key@, message@, signature@),
{
    match VerifyingKey::from_bytes(public_key) {
        Ok(key) => key.verify(message, &Signature::from_bytes(signature)).is_ok(),
        Err(_) => false,
    }
}

} // verus!
