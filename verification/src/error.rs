//! The ways a key, a signature or a discriminant can be malformed.

use vstd::prelude::*;

verus! {

/// Malformed input to a verifier or a decoder. A signature that merely
/// fails to verify is never an error: it is an ordinary `Ok(false)`.
#[derive(Clone, Copy, Debug, PartialEq, Eq, Structural)]
pub enum IdentityError {
    /// The public key is not a hex string.
    PublicKeyNotHex,
    /// The public key does not decode to 32 bytes.
    PublicKeyLength,
    /// The 32 bytes are not an ed25519 curve point. Its sentence ends with
    /// the one way `VerifyingKey::from_bytes` reports this failure.
    InvalidPublicKey,
    /// The signature is not 64 bytes long.
    SignatureLength,
    /// The scheme has no verifier yet.
    SchemeNotImplemented,
    /// The scheme is the unspecified placeholder.
    SchemeUnspecified,
    /// The number names no key scheme.
    UnknownKeyScheme(i32),
    /// A delegation certificate's device key is not 32 bytes long.
    CertDeviceKeyLength,
    /// A delegation certificate's session key is not 32 bytes long.
    CertSessionKeyLength,
}

impl IdentityError {
    /// The sentence describing the error.
    pub open spec fn text(self) -> Seq<char> {
        match self {
            IdentityError::PublicKeyNotHex => "public_key is not valid hex"@,
            IdentityError::PublicKeyLength => "ed25519 public key must be 32 bytes"@,
            IdentityError::InvalidPublicKey => "invalid ed25519 public key: signature error: Cannot decompress Edwards point"@,
            IdentityError::SignatureLength => "ed25519 signature must be 64 bytes"@,
            IdentityError::SchemeNotImplemented => {
                "KeyScheme::Secp256k1Schnorr has no implementation yet"@
            },
            IdentityError::SchemeUnspecified => "KeyScheme::Unspecified cannot be verified"@,
            IdentityError::UnknownKeyScheme(_) => "unknown KeyScheme discriminant"@,
            IdentityError::CertDeviceKeyLength => {
                "DelegationCert.device_public_key must be 32 bytes"@
            },
            IdentityError::CertSessionKeyLength => {
                "DelegationCert.session_public_key must be 32 bytes"@
            },
        }
    }

    /// A sentence describing the error.
    pub fn message(&self) -> (m: &'static str)
        ensures
            m@ == self.text(),
    {
        match self {
            IdentityError::PublicKeyNotHex => "public_key is not valid hex",
            IdentityError::PublicKeyLength => "ed25519 public key must be 32 bytes",
            IdentityError::InvalidPublicKey => "invalid ed25519 public key: signature error: Cannot decompress Edwards point",
            IdentityError::SignatureLength => "ed25519 signature must be 64 bytes",
            IdentityError::SchemeNotImplemented => {
                "KeyScheme::Secp256k1Schnorr has no implementation yet"
            },
            IdentityError::SchemeUnspecified => "KeyScheme::Unspecified cannot be verified",
            IdentityError::UnknownKeyScheme(_) => "unknown KeyScheme discriminant",
            IdentityError::CertDeviceKeyLength => {
                "DelegationCert.device_public_key must be 32 bytes"
            },
            IdentityError::CertSessionKeyLength => {
                "DelegationCert.session_public_key must be 32 bytes"
            },
        }
    }
}

} // verus!
