use identity_crypto::KeyScheme;

#[test]
fn discriminants_are_pinned() {
    // These exact values are load-bearing: every transcript serializes a
    // scheme as a raw byte.
    assert_eq!(KeyScheme::Unspecified as i32, 0);
    assert_eq!(KeyScheme::Ed25519 as i32, 1);
    assert_eq!(KeyScheme::Secp256k1Schnorr as i32, 2);
}

#[test]
fn try_from_round_trips_every_known_value() {
    assert_eq!(KeyScheme::try_from(0).unwrap(), KeyScheme::Unspecified);
    assert_eq!(KeyScheme::try_from(1).unwrap(), KeyScheme::Ed25519);
    assert_eq!(KeyScheme::try_from(2).unwrap(), KeyScheme::Secp256k1Schnorr);
}

#[test]
fn unknown_discriminant_errors_rather_than_silently_mapping() {
    assert!(KeyScheme::try_from(99).is_err());
}

#[test]
fn unknown_discriminant_error_carries_the_number() {
    assert_eq!(
        KeyScheme::try_from(-1),
        Err(identity_crypto::IdentityError::UnknownKeyScheme(-1))
    );
    assert_eq!(
        KeyScheme::try_from(3),
        Err(identity_crypto::IdentityError::UnknownKeyScheme(3))
    );
}

#[test]
fn every_scheme_round_trips_through_its_discriminant() {
    for scheme in [KeyScheme::Unspecified, KeyScheme::Ed25519, KeyScheme::Secp256k1Schnorr] {
        assert_eq!(KeyScheme::try_from(scheme as i32).unwrap(), scheme);
    }
}
