//! The canonical numeric mapping for the `scheme` byte every transcript
//! embeds. Each consumer's own enum is meant to be tested against it.

use vstd::prelude::*;
use vstd::std_specs::convert::TryFromSpecImpl;

use crate::error::IdentityError;

verus! {

/// A signature scheme. Its discriminants are 0, 1 and 2 in declaration
/// order, and they are load-bearing: transcripts write them as a byte.
#[derive(Debug, Clone, Copy, PartialEq, Eq, Structural)]
pub enum KeyScheme {
    Unspecified,
    Ed25519,
    Secp256k1Schnorr,
}

impl KeyScheme {
    /// The scheme's discriminant.
    pub open spec fn discriminant(self) -> i32 {
        match self {
            KeyScheme::Unspecified => 0,
            KeyScheme::Ed25519 => 1,
            KeyScheme::Secp256k1Schnorr => 2,
        }
    }
}

/// The scheme a discriminant names, or an error carrying the number.
pub open spec fn key_scheme_from_i32(value: i32) -> Result<KeyScheme, IdentityError> {
    if value == 0 {
        Ok(KeyScheme::Unspecified)
    } else if value == 1 {
        Ok(KeyScheme::Ed25519)
    } else if value == 2 {
        Ok(KeyScheme::Secp256k1Schnorr)
    } else {
        Err(IdentityError::UnknownKeyScheme(value))
    }
}

impl TryFrom<i32> for KeyScheme {
    type Error = IdentityError;

    fn try_from(value: i32) -> (r: Result<Self, Self::Error>)
        ensures
            r == key_scheme_from_i32(value),
    {
        match value {
            0 => Ok(KeyScheme::Unspecified),
            1 => Ok(KeyScheme::Ed25519),
            2 => Ok(KeyScheme::Secp256k1Schnorr),
            other => Err(IdentityError::UnknownKeyScheme(other)),
        }
    }
}

impl TryFromSpecImpl<i32> for KeyScheme {
    open spec fn obeys_try_from_spec() -> bool {
        true
    }

    open spec fn try_from_spec(value: i32) -> Result<Self, Self::Error> {
        key_scheme_from_i32(value)
    }
}

/// Every scheme's discriminant maps back to that scheme, and only the
/// three discriminants map to a scheme at all: 0 is the unspecified
/// scheme, 1 ed25519 and 2 Schnorr over secp256k1.
pub proof fn lemma_key_scheme_round_trips(scheme: KeyScheme, value: i32)
    ensures
        key_scheme_from_i32(0) == Ok::<KeyScheme, IdentityError>(KeyScheme::Unspecified),
        key_scheme_from_i32(1) == Ok::<KeyScheme, IdentityError>(KeyScheme::Ed25519),
        key_scheme_from_i32(2) == Ok::<KeyScheme, IdentityError>(KeyScheme::Secp256k1Schnorr),
        !(0 <= value <= 2) ==> key_scheme_from_i32(value) == Err::<KeyScheme, IdentityError>(
            IdentityError::UnknownKeyScheme(value),
        ),
        key_scheme_from_i32(scheme.discriminant()) == Ok::<KeyScheme, IdentityError>(scheme),
        key_scheme_from_i32(value) is Ok <==> 0 <= value <= 2,
        key_scheme_from_i32(value) matches Ok(s) ==> s.discriminant() == value,
{
}

} // verus!
