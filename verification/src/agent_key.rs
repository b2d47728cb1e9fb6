//! Agent-key standing: whether a claimed public key was, at a message's
//! timestamp, a live and correctly-scoped key for signing, either directly
//! ([`verify`]) or through a delegated session key ([`verify_delegated`]).

use vstd::prelude::*;
use vstd::string::StringSliceAdditionalSpecFns;

use crate::ed25519::{ed25519_point_decodes, ed25519_signature_valid};
use crate::error::IdentityError;
use crate::hex_text::{lemma_hex_round_trip, lower_hex};
use crate::key_scheme::KeyScheme;
use crate::proto::{DelegationCert, Timestamp};
use crate::transcripts::session_delegation_bytes;
use crate::{decoded_public_key, ed25519_outcome};

verus! {

/// How far a device key's creation or a certificate's window may be from
/// the receiver's clock, to absorb skew between the two clocks.
pub const CLOCK_SKEW_TOLERANCE_SECONDS: i64 = 30;

/// The subset of an agent's key record the two verifiers read.
#[derive(Clone, Debug, PartialEq)]
pub struct AgentKeyRecord {
    pub public_key: String,
    pub scheme: KeyScheme,
    /// True only for keys registered for the device purpose.
    pub is_device_key: bool,
    pub created_at: Option<Timestamp>,
    pub revoked_at: Option<Timestamp>,
}

/// `a` had already happened by the time `b` names: `(seconds, nanos)`
/// compared in order.
pub open spec fn at_or_before(a: Timestamp, b: Timestamp) -> bool {
    a.seconds < b.seconds || (a.seconds == b.seconds && a.nanos <= b.nanos)
}

/// `value - tolerance <= receipt_time`, or `None` where the subtraction
/// leaves `i64`.
pub open spec fn widened_lower_bound(value: i64, tolerance: i64, receipt_time: i64) -> Option<
    bool,
> {
    if i64::MIN <= value - tolerance <= i64::MAX {
        Some(value - tolerance <= receipt_time)
    } else {
        None
    }
}

/// `receipt_time < value + tolerance`, or `None` where the addition
/// leaves `i64`.
pub open spec fn widened_upper_bound(value: i64, tolerance: i64, receipt_time: i64) -> Option<
    bool,
> {
    if i64::MIN <= value + tolerance <= i64::MAX {
        Some(receipt_time < value + tolerance)
    } else {
        None
    }
}

/// Whether a record is the key looked up: the same public key text, and a
/// device key where only those count.
pub open spec fn key_matches(key: AgentKeyRecord, public_key: Seq<char>, device_only: bool) -> bool {
    key.public_key@ == public_key && (!device_only || key.is_device_key)
}

/// The first matching record at or after `start`.
pub open spec fn find_key_from(
    keys: Seq<AgentKeyRecord>,
    public_key: Seq<char>,
    device_only: bool,
    start: int,
) -> Option<AgentKeyRecord>
    decreases keys.len() - start,
{
    if start < 0 || start >= keys.len() {
        None
    } else if key_matches(keys[start], public_key, device_only) {
        Some(keys[start])
    } else {
        find_key_from(keys, public_key, device_only, start + 1)
    }
}

/// The first matching record.
pub open spec fn find_key(keys: Seq<AgentKeyRecord>, public_key: Seq<char>, device_only: bool) -> Option<
    AgentKeyRecord,
> {
    find_key_from(keys, public_key, device_only, 0)
}

/// A directly used key existed at `msg_timestamp` (when its creation is
/// recorded) and had not been revoked by then.
pub open spec fn key_live_at(key: AgentKeyRecord, msg_timestamp: Timestamp) -> bool {
    &&& match key.created_at {
        Some(created_at) => at_or_before(created_at, msg_timestamp),
        None => true,
    }
    &&& match key.revoked_at {
        Some(revoked_at) => !at_or_before(revoked_at, msg_timestamp),
        None => true,
    }
}

/// What [`verify`] returns.
pub open spec fn verify_outcome(
    keys: Seq<AgentKeyRecord>,
    claimed_public_key_hex: Seq<char>,
    scheme: KeyScheme,
    msg: Seq<u8>,
    sig: Seq<u8>,
    msg_timestamp: Timestamp,
) -> Result<bool, IdentityError> {
    match find_key(keys, claimed_public_key_hex, false) {
        None => Ok(false),
        Some(key) => if key.scheme != scheme || !key_live_at(key, msg_timestamp) {
            Ok(false)
        } else {
            match scheme {
                KeyScheme::Ed25519 => ed25519_outcome(claimed_public_key_hex, msg, sig),
                KeyScheme::Secp256k1Schnorr => Err(IdentityError::SchemeNotImplemented),
                KeyScheme::Unspecified => Err(IdentityError::SchemeUnspecified),
            }
        },
    }
}

/// A device key was created no later than the tolerance after receipt
/// (when its creation is recorded) and had not been revoked by receipt,
/// with no tolerance at all for revocation.
pub open spec fn device_key_live_at(key: AgentKeyRecord, receipt: Timestamp) -> bool {
    &&& match key.created_at {
        Some(created_at) => widened_lower_bound(
            created_at.seconds,
            CLOCK_SKEW_TOLERANCE_SECONDS,
            receipt.seconds,
        ) == Some(true),
        None => true,
    }
    &&& match key.revoked_at {
        Some(revoked_at) => !at_or_before(revoked_at, receipt),
        None => true,
    }
}

/// Receipt falls in the certificate's window, each bound widened by the
/// tolerance.
pub open spec fn cert_window_open_at(cert: DelegationCert, receipt: Timestamp) -> bool {
    &&& widened_lower_bound(
        cert.not_before_unix_seconds,
        CLOCK_SKEW_TOLERANCE_SECONDS,
        receipt.seconds,
    ) == Some(true)
    &&& widened_upper_bound(
        cert.not_after_unix_seconds,
        CLOCK_SKEW_TOLERANCE_SECONDS,
        receipt.seconds,
    ) == Some(true)
}

/// The transcript a certificate's signature covers, or the key that has
/// the wrong length.
pub open spec fn cert_transcript_outcome(cert: DelegationCert) -> Result<Seq<u8>, IdentityError> {
    if cert.device_public_key@.len() != 32 {
        Err(IdentityError::CertDeviceKeyLength)
    } else if cert.session_public_key@.len() != 32 {
        Err(IdentityError::CertSessionKeyLength)
    } else {
        Ok(
            session_delegation_bytes(
                cert.agent_id@,
                cert.device_public_key@,
                cert.session_public_key@,
                cert.not_before_unix_seconds,
                cert.not_after_unix_seconds,
            ),
        )
    }
}

/// What [`verify_delegated`] returns.
pub open spec fn verify_delegated_outcome(
    keys: Seq<AgentKeyRecord>,
    agent_id: Seq<char>,
    cert: DelegationCert,
    claimed_session_public_key_hex: Seq<char>,
    msg: Seq<u8>,
    sig: Seq<u8>,
    msg_timestamp: Timestamp,
) -> Result<bool, IdentityError> {
    let device_hex = lower_hex(cert.device_public_key@);
    let session_hex = lower_hex(cert.session_public_key@);
    if cert.agent_id@ != agent_id {
        Ok(false)
    } else if cert.not_before_unix_seconds >= cert.not_after_unix_seconds {
        Ok(false)
    } else {
        match find_key(keys, device_hex, true) {
            None => Ok(false),
            Some(device_key) => if device_key.scheme != KeyScheme::Ed25519 || !device_key_live_at(
                device_key,
                msg_timestamp,
            ) || !cert_window_open_at(cert, msg_timestamp) {
                Ok(false)
            } else {
                match cert_transcript_outcome(cert) {
                    Err(e) => Err(e),
                    Ok(transcript) => match ed25519_outcome(
                        device_hex,
                        transcript,
                        cert.signature@,
                    ) {
                        Err(e) => Err(e),
                        Ok(false) => Ok(false),
                        Ok(true) => if session_hex != claimed_session_public_key_hex {
                            Ok(false)
                        } else {
                            ed25519_outcome(session_hex, msg, sig)
                        },
                    },
                }
            },
        }
    }
}

/// Whether two strings hold the same characters.
fn same_text(a: &str, b: &str) -> (r: bool)
    ensures
        r == (a@ == b@),
{
    let x = a.as_bytes();
    let y = b.as_bytes();
    proof {
        vstd::utf8::encode_utf8_decode_utf8(a@);
        vstd::utf8::encode_utf8_decode_utf8(b@);
    }
    if x.len() != y.len() {
        return false;
    }
    let mut i: usize = 0;
    while i < x.len()
        invariant
            x@.len() == y@.len(),
            i <= x@.len(),
            x@ == a.spec_bytes(),
            y@ == b.spec_bytes(),
            forall|j: int| 0 <= j < i ==> x@[j] == y@[j],
        decreases x@.len() - i,
    {
        if x[i] != y[i] {
            return false;
        }
        i = i + 1;
    }
    assert(x@ =~= y@);
    true
}

/// The index of the first record for `public_key` (a device key, where
/// `device_only`).
fn find_key_index(keys: &[AgentKeyRecord], public_key: &str, device_only: bool) -> (r: Option<
    usize,
>)
    ensures
        match r {
            Some(i) => i < keys@.len() && find_key(keys@, public_key@, device_only) == Some(
                keys@[i as int],
            ),
            None => find_key(keys@, public_key@, device_only) is None,
        },
{
    let mut i: usize = 0;
    while i < keys.len()
        invariant
            i <= keys@.len(),
            find_key(keys@, public_key@, device_only) == find_key_from(
                keys@,
                public_key@,
                device_only,
                i as int,
            ),
        decreases keys@.len() - i,
    {
        let key = &keys[i];
        if same_text(key.public_key.as_str(), public_key) && (!device_only || key.is_device_key) {
            return Some(i);
        }
        i = i + 1;
    }
    None
}

/// `value - tolerance <= receipt_time`, `None` on overflow rather than
/// wrapping into a bound that means the opposite.
fn lower_bound_ok(value: i64, tolerance: i64, receipt_time: i64) -> (r: Option<bool>)
    ensures
        r == widened_lower_bound(value, tolerance, receipt_time),
{
    match value.checked_sub(tolerance) {
        Some(lo) => Some(lo <= receipt_time),
        None => None,
    }
}

/// `receipt_time < value + tolerance`, `None` on overflow.
fn upper_bound_ok(value: i64, tolerance: i64, receipt_time: i64) -> (r: Option<bool>)
    ensures
        r == widened_upper_bound(value, tolerance, receipt_time),
{
    match value.checked_add(tolerance) {
        Some(hi) => Some(receipt_time < hi),
        None => None,
    }
}

/// `a <= b` on `(seconds, nanos)`.
fn timestamp_before_or_eq(a: &Timestamp, b: &Timestamp) -> (r: bool)
    ensures
        r == at_or_before(*a, *b),
{
    a.seconds < b.seconds || (a.seconds == b.seconds && a.nanos <= b.nanos)
}

/// Raw ed25519 verification: a malformed key or signature is an error,
/// a signature that does not verify is `Ok(false)`.
fn raw_ed25519_verify(public_key_hex: &str, msg: &[u8], sig: &[u8]) -> (r: Result<
    bool,
    IdentityError,
>)
    ensures
        r == ed25519_outcome(public_key_hex@, msg@, sig@),
{
    let verifying_key = crate::decode_verifying_key(public_key_hex)?;
    let signature = crate::decode_signature(sig)?;
    Ok(crate::ed25519::ed25519_verify(&verifying_key, msg, &signature))
}

/// Verify a message signature against an agent's known keys (active and
/// revoked alike: a signature made before revocation still verifies). The
/// claimed key must be among `keys` with the given scheme, the message must
/// not predate the key's creation (when recorded), the key must not have
/// been revoked by `msg_timestamp`, and the signature must check out.
pub fn verify(
    keys: &[AgentKeyRecord],
    claimed_public_key_hex: &str,
    scheme: KeyScheme,
    msg: &[u8],
    sig: &[u8],
    msg_timestamp: Timestamp,
) -> (r: Result<bool, IdentityError>)
    ensures
        r == verify_outcome(keys@, claimed_public_key_hex@, scheme, msg@, sig@, msg_timestamp),
{
    let key = match find_key_index(keys, claimed_public_key_hex, false) {
        Some(i) => &keys[i],
        None => return Ok(false),
    };
    if key.scheme != scheme {
        return Ok(false);
    }
    if let Some(created_at) = &key.created_at {
        if !timestamp_before_or_eq(created_at, &msg_timestamp) {
            return Ok(false);
        }
    }
    if let Some(revoked_at) = &key.revoked_at {
        if timestamp_before_or_eq(revoked_at, &msg_timestamp) {
            return Ok(false);
        }
    }
    match scheme {
        KeyScheme::Ed25519 => raw_ed25519_verify(claimed_public_key_hex, msg, sig),
        KeyScheme::Secp256k1Schnorr => Err(IdentityError::SchemeNotImplemented),
        KeyScheme::Unspecified => Err(IdentityError::SchemeUnspecified),
    }
}

/// The session-delegation transcript a certificate's signature covers;
/// a key of the wrong length is a malformed certificate.
pub fn cert_transcript(cert: &DelegationCert) -> (r: Result<Vec<u8>, IdentityError>)
    ensures
        match r {
            Ok(t) => cert_transcript_outcome(*cert) == Ok::<Seq<u8>, IdentityError>(t@),
            Err(e) => cert_transcript_outcome(*cert) == Err::<Seq<u8>, IdentityError>(e),
        },
{
    if cert.device_public_key.len() != 32 {
        return Err(IdentityError::CertDeviceKeyLength);
    }
    if cert.session_public_key.len() != 32 {
        return Err(IdentityError::CertSessionKeyLength);
    }
    let device = crate::array_32(cert.device_public_key.as_slice());
    let session = crate::array_32(cert.session_public_key.as_slice());
    Ok(
        crate::transcripts::session_delegation_transcript(
            cert.agent_id.as_str(),
            &device,
            &session,
            cert.not_before_unix_seconds,
            cert.not_after_unix_seconds,
        ),
    )
}

/// Verify a session-signed message end to end: the certificate names this
/// agent and a non-empty window; it was signed by a known, live ed25519
/// device key of the agent; the receiver's clock (`msg_timestamp`) is in
/// the window, widened by the tolerance; the claimed session key is the one
/// the certificate names; and the message signature verifies under it.
pub fn verify_delegated(
    keys: &[AgentKeyRecord],
    agent_id: &str,
    cert: &DelegationCert,
    claimed_session_public_key_hex: &str,
    msg: &[u8],
    sig: &[u8],
    msg_timestamp: Timestamp,
) -> (r: Result<bool, IdentityError>)
    ensures
        r == verify_delegated_outcome(
            keys@,
            agent_id@,
            *cert,
            claimed_session_public_key_hex@,
            msg@,
            sig@,
            msg_timestamp,
        ),
{
    if !same_text(cert.agent_id.as_str(), agent_id) {
        return Ok(false);
    }
    if cert.not_before_unix_seconds >= cert.not_after_unix_seconds {
        return Ok(false);
    }
    let device_public_key_hex = crate::hex_text::hex_encode(cert.device_public_key.as_slice());
    let device_key = match find_key_index(keys, device_public_key_hex.as_str(), true) {
        Some(i) => &keys[i],
        None => return Ok(false),
    };
    if device_key.scheme != KeyScheme::Ed25519 {
        return Ok(false);
    }
    let receipt_seconds = msg_timestamp.seconds;
    let t = CLOCK_SKEW_TOLERANCE_SECONDS;
    if let Some(created_at) = &device_key.created_at {
        if lower_bound_ok(created_at.seconds, t, receipt_seconds) != Some(true) {
            return Ok(false);
        }
    }
    if let Some(revoked_at) = &device_key.revoked_at {
        if timestamp_before_or_eq(revoked_at, &msg_timestamp) {
            return Ok(false);
        }
    }
    if lower_bound_ok(cert.not_before_unix_seconds, t, receipt_seconds) != Some(true) {
        return Ok(false);
    }
    if upper_bound_ok(cert.not_after_unix_seconds, t, receipt_seconds) != Some(true) {
        return Ok(false);
    }
    let transcript = cert_transcript(cert)?;
    if !raw_ed25519_verify(device_public_key_hex.as_str(), transcript.as_slice(), cert.signature.as_slice())? {
        return Ok(false);
    }
    let session_public_key_hex = crate::hex_text::hex_encode(cert.session_public_key.as_slice());
    if !same_text(session_public_key_hex.as_str(), claimed_session_public_key_hex) {
        return Ok(false);
    }
    raw_ed25519_verify(session_public_key_hex.as_str(), msg, sig)
}


/// [`verify`] accepts exactly when the claimed key is among the agent's
/// keys under the claimed scheme, that scheme is ed25519, the key was live
/// at the message's timestamp, and the signature is valid under the key's
/// raw bytes.
pub proof fn lemma_verify_accepts_exactly(
    keys: Seq<AgentKeyRecord>,
    claimed_public_key_hex: Seq<char>,
    scheme: KeyScheme,
    msg: Seq<u8>,
    sig: Seq<u8>,
    msg_timestamp: Timestamp,
)
    ensures
        verify_outcome(keys, claimed_public_key_hex, scheme, msg, sig, msg_timestamp) == Ok::<
            bool,
            IdentityError,
        >(true) <==> {
            &&& find_key(keys, claimed_public_key_hex, false) matches Some(key)
            &&& key.scheme == scheme
            &&& scheme == KeyScheme::Ed25519
            &&& key_live_at(key, msg_timestamp)
            &&& decoded_public_key(claimed_public_key_hex) matches Ok(raw_key)
            &&& ed25519_point_decodes(raw_key)
            &&& sig.len() == 64
            &&& ed25519_signature_valid(raw_key, msg, sig)
        },
{
}

/// Revocation takes effect the instant it is recorded: once a key's
/// `revoked_at` is at or before the receiver's timestamp, neither
/// verifier accepts a signature through that key, with no grace period.
pub proof fn lemma_revocation_is_immediate(
    keys: Seq<AgentKeyRecord>,
    public_key_hex: Seq<char>,
    scheme: KeyScheme,
    agent_id: Seq<char>,
    cert: DelegationCert,
    claimed_session_public_key_hex: Seq<char>,
    msg: Seq<u8>,
    sig: Seq<u8>,
    msg_timestamp: Timestamp,
)
    ensures
        find_key(keys, public_key_hex, false) matches Some(key) && key.revoked_at matches Some(
            revoked_at,
        ) && at_or_before(revoked_at, msg_timestamp) ==> verify_outcome(
            keys,
            public_key_hex,
            scheme,
            msg,
            sig,
            msg_timestamp,
        ) == Ok::<bool, IdentityError>(false),
        find_key(keys, lower_hex(cert.device_public_key@), true) matches Some(device_key)
            && device_key.revoked_at matches Some(revoked_at) && at_or_before(
            revoked_at,
            msg_timestamp,
        ) ==> verify_delegated_outcome(
            keys,
            agent_id,
            cert,
            claimed_session_public_key_hex,
            msg,
            sig,
            msg_timestamp,
        ) == Ok::<bool, IdentityError>(false),
{
}

/// [`verify_delegated`] accepts exactly when the whole chain holds: the
/// certificate names this agent and a non-empty window (checked before any
/// tolerance); both its keys are 32 bytes; its device key is a known,
/// live ed25519 device key of the agent; the receiver's clock is inside the
/// window widened by the tolerance; the certificate's signature is valid
/// under the device key over the session-delegation transcript; the claimed
/// session key is the hex of the certificate's session key; and the message
/// signature is valid under that session key.
pub proof fn lemma_verify_delegated_accepts_exactly(
    keys: Seq<AgentKeyRecord>,
    agent_id: Seq<char>,
    cert: DelegationCert,
    claimed_session_public_key_hex: Seq<char>,
    msg: Seq<u8>,
    sig: Seq<u8>,
    msg_timestamp: Timestamp,
)
    ensures
        verify_delegated_outcome(
            keys,
            agent_id,
            cert,
            claimed_session_public_key_hex,
            msg,
            sig,
            msg_timestamp,
        ) == Ok::<bool, IdentityError>(true) <==> {
            let device = cert.device_public_key@;
            let session = cert.session_public_key@;
            &&& cert.agent_id@ == agent_id
            &&& cert.not_before_unix_seconds < cert.not_after_unix_seconds
            &&& device.len() == 32
            &&& session.len() == 32
            &&& find_key(keys, lower_hex(device), true) matches Some(device_key)
            &&& device_key.scheme == KeyScheme::Ed25519
            &&& device_key_live_at(device_key, msg_timestamp)
            &&& cert_window_open_at(cert, msg_timestamp)
            &&& ed25519_point_decodes(device)
            &&& cert.signature@.len() == 64
            &&& ed25519_signature_valid(
                device,
                session_delegation_bytes(
                    cert.agent_id@,
                    device,
                    session,
                    cert.not_before_unix_seconds,
                    cert.not_after_unix_seconds,
                ),
                cert.signature@,
            )
            &&& claimed_session_public_key_hex == lower_hex(session)
            &&& ed25519_point_decodes(session)
            &&& sig.len() == 64
            &&& ed25519_signature_valid(session, msg, sig)
        },
{
    lemma_hex_round_trip(cert.device_public_key@);
    lemma_hex_round_trip(cert.session_public_key@);
}


/// Timestamps are ordered by their seconds, the nanoseconds only breaking
/// ties; the order is total.
pub proof fn lemma_timestamp_order(a: Timestamp, b: Timestamp, c: Timestamp)
    ensures
        a.seconds < b.seconds ==> at_or_before(a, b) && !at_or_before(b, a),
        a.seconds == b.seconds ==> (at_or_before(a, b) <==> a.nanos <= b.nanos),
        at_or_before(a, a),
        at_or_before(a, b) || at_or_before(b, a),
        at_or_before(a, b) && at_or_before(b, c) ==> at_or_before(a, c),
        at_or_before(a, b) && at_or_before(b, a) ==> a == b,
{
}

proof fn lemma_find_key_from_matches(
    keys: Seq<AgentKeyRecord>,
    public_key: Seq<char>,
    device_only: bool,
    start: int,
)
    ensures
        find_key_from(keys, public_key, device_only, start) matches Some(key) ==> key_matches(
            key,
            public_key,
            device_only,
        ),
    decreases keys.len() - start,
{
    if 0 <= start < keys.len() && !key_matches(keys[start], public_key, device_only) {
        lemma_find_key_from_matches(keys, public_key, device_only, start + 1);
    }
}

/// `later` comes strictly after `t`, seconds first.
pub open spec fn strictly_after(later: Timestamp, t: Timestamp) -> bool {
    later.seconds > t.seconds || (later.seconds == t.seconds && later.nanos > t.nanos)
}

/// [`verify`] reads only the first record for the claimed key; with none,
/// it answers `Ok(false)`.
pub proof fn lemma_verify_reads_first_record(
    keys: Seq<AgentKeyRecord>,
    public_key_hex: Seq<char>,
    scheme: KeyScheme,
    msg: Seq<u8>,
    sig: Seq<u8>,
    msg_timestamp: Timestamp,
)
    ensures
        find_key(keys, public_key_hex, false) matches Some(key) ==> verify_outcome(
            keys,
            public_key_hex,
            scheme,
            msg,
            sig,
            msg_timestamp,
        ) == verify_outcome(seq![key], public_key_hex, scheme, msg, sig, msg_timestamp),
        find_key(keys, public_key_hex, false) is None ==> verify_outcome(
            keys,
            public_key_hex,
            scheme,
            msg,
            sig,
            msg_timestamp,
        ) == Ok::<bool, IdentityError>(false),
{
    lemma_find_key_from_matches(keys, public_key_hex, false, 0);
    if let Some(key) = find_key(keys, public_key_hex, false) {
        assert(find_key(seq![key], public_key_hex, false) == Some(key));
    }
}

/// For one record of the claimed key: a revocation strictly after the
/// message's timestamp changes nothing, while one at or before it (in
/// particular any with fewer seconds, whatever the nanoseconds) makes the
/// answer `Ok(false)`; likewise a creation at or before the timestamp
/// changes nothing, while one strictly after it makes the answer
/// `Ok(false)`. A live ed25519 record answers as [`crate::verify_ed25519`]
/// does, and a record of another scheme answers `Ok(false)`.
pub proof fn lemma_verify_time_and_scheme(
    key: AgentKeyRecord,
    public_key_hex: Seq<char>,
    scheme: KeyScheme,
    msg: Seq<u8>,
    sig: Seq<u8>,
    msg_timestamp: Timestamp,
)
    requires
        key.public_key@ == public_key_hex,
    ensures
        key.revoked_at matches Some(revoked_at) && strictly_after(revoked_at, msg_timestamp)
            ==> verify_outcome(seq![key], public_key_hex, scheme, msg, sig, msg_timestamp)
            == verify_outcome(
            seq![AgentKeyRecord { revoked_at: None, ..key }],
            public_key_hex,
            scheme,
            msg,
            sig,
            msg_timestamp,
        ),
        key.revoked_at matches Some(revoked_at) && !strictly_after(revoked_at, msg_timestamp)
            ==> verify_outcome(seq![key], public_key_hex, scheme, msg, sig, msg_timestamp)
            == Ok::<bool, IdentityError>(false),
        key.created_at matches Some(created_at) && !strictly_after(created_at, msg_timestamp)
            ==> verify_outcome(seq![key], public_key_hex, scheme, msg, sig, msg_timestamp)
            == verify_outcome(
            seq![AgentKeyRecord { created_at: None, ..key }],
            public_key_hex,
            scheme,
            msg,
            sig,
            msg_timestamp,
        ),
        key.created_at matches Some(created_at) && strictly_after(created_at, msg_timestamp)
            ==> verify_outcome(seq![key], public_key_hex, scheme, msg, sig, msg_timestamp)
            == Ok::<bool, IdentityError>(false),
        key.created_at is None && key.revoked_at is None && key.scheme == KeyScheme::Ed25519
            ==> verify_outcome(
            seq![key],
            public_key_hex,
            KeyScheme::Ed25519,
            msg,
            sig,
            msg_timestamp,
        ) == ed25519_outcome(public_key_hex, msg, sig),
        key.scheme != scheme ==> verify_outcome(
            seq![key],
            public_key_hex,
            scheme,
            msg,
            sig,
            msg_timestamp,
        ) == Ok::<bool, IdentityError>(false),
{
    let k1 = AgentKeyRecord { revoked_at: None, ..key };
    let k2 = AgentKeyRecord { created_at: None, ..key };
    assert(find_key(seq![key], public_key_hex, false) == Some(key));
    assert(find_key(seq![k1], public_key_hex, false) == Some(k1));
    assert(find_key(seq![k2], public_key_hex, false) == Some(k2));
}

/// [`verify_delegated`] reads only the first device record for the
/// certificate's device key; with none, it answers `Ok(false)`.
pub proof fn lemma_verify_delegated_reads_first_device_record(
    keys: Seq<AgentKeyRecord>,
    agent_id: Seq<char>,
    cert: DelegationCert,
    claimed_session_public_key_hex: Seq<char>,
    msg: Seq<u8>,
    sig: Seq<u8>,
    msg_timestamp: Timestamp,
)
    ensures
        find_key(keys, lower_hex(cert.device_public_key@), true) matches Some(device_key)
            ==> verify_delegated_outcome(
            keys,
            agent_id,
            cert,
            claimed_session_public_key_hex,
            msg,
            sig,
            msg_timestamp,
        ) == verify_delegated_outcome(
            seq![device_key],
            agent_id,
            cert,
            claimed_session_public_key_hex,
            msg,
            sig,
            msg_timestamp,
        ),
        find_key(keys, lower_hex(cert.device_public_key@), true) is None
            ==> verify_delegated_outcome(
            keys,
            agent_id,
            cert,
            claimed_session_public_key_hex,
            msg,
            sig,
            msg_timestamp,
        ) == Ok::<bool, IdentityError>(false),
{
    let hex = lower_hex(cert.device_public_key@);
    lemma_find_key_from_matches(keys, hex, true, 0);
    if let Some(key) = find_key(keys, hex, true) {
        assert(find_key(seq![key], hex, true) == Some(key));
    }
}

/// For the certificate's device record: a revocation strictly after receipt
/// changes nothing, while one at or before receipt (in particular any with
/// fewer seconds) makes the answer `Ok(false)`, with no tolerance; a
/// creation no more than 30 seconds after receipt changes nothing, while a
/// later one, or one whose tolerance would overflow, makes the answer
/// `Ok(false)`; a receipt time outside the certificate's window widened by
/// 30 seconds each way makes the answer `Ok(false)`.
pub proof fn lemma_verify_delegated_times(
    device_key: AgentKeyRecord,
    agent_id: Seq<char>,
    cert: DelegationCert,
    claimed_session_public_key_hex: Seq<char>,
    msg: Seq<u8>,
    sig: Seq<u8>,
    msg_timestamp: Timestamp,
)
    requires
        device_key.public_key@ == lower_hex(cert.device_public_key@),
        device_key.is_device_key,
    ensures
        device_key.revoked_at matches Some(revoked_at) && strictly_after(revoked_at, msg_timestamp)
            ==> verify_delegated_outcome(
            seq![device_key],
            agent_id,
            cert,
            claimed_session_public_key_hex,
            msg,
            sig,
            msg_timestamp,
        ) == verify_delegated_outcome(
            seq![AgentKeyRecord { revoked_at: None, ..device_key }],
            agent_id,
            cert,
            claimed_session_public_key_hex,
            msg,
            sig,
            msg_timestamp,
        ),
        device_key.revoked_at matches Some(revoked_at) && !strictly_after(
            revoked_at,
            msg_timestamp,
        ) ==> verify_delegated_outcome(
            seq![device_key],
            agent_id,
            cert,
            claimed_session_public_key_hex,
            msg,
            sig,
            msg_timestamp,
        ) == Ok::<bool, IdentityError>(false),
        device_key.created_at matches Some(created_at) && created_at.seconds - 30
            <= msg_timestamp.seconds && created_at.seconds - 30 >= i64::MIN
            ==> verify_delegated_outcome(
            seq![device_key],
            agent_id,
            cert,
            claimed_session_public_key_hex,
            msg,
            sig,
            msg_timestamp,
        ) == verify_delegated_outcome(
            seq![AgentKeyRecord { created_at: None, ..device_key }],
            agent_id,
            cert,
            claimed_session_public_key_hex,
            msg,
            sig,
            msg_timestamp,
        ),
        device_key.created_at matches Some(created_at) && (created_at.seconds - 30
            > msg_timestamp.seconds || created_at.seconds - 30 < i64::MIN)
            ==> verify_delegated_outcome(
            seq![device_key],
            agent_id,
            cert,
            claimed_session_public_key_hex,
            msg,
            sig,
            msg_timestamp,
        ) == Ok::<bool, IdentityError>(false),
        !(cert.not_before_unix_seconds - 30 <= msg_timestamp.seconds
            < cert.not_after_unix_seconds + 30) || cert.not_before_unix_seconds - 30 < i64::MIN
            || cert.not_after_unix_seconds + 30 > i64::MAX ==> verify_delegated_outcome(
            seq![device_key],
            agent_id,
            cert,
            claimed_session_public_key_hex,
            msg,
            sig,
            msg_timestamp,
        ) == Ok::<bool, IdentityError>(false),
{
    let hex = lower_hex(cert.device_public_key@);
    let k1 = AgentKeyRecord { revoked_at: None, ..device_key };
    let k2 = AgentKeyRecord { created_at: None, ..device_key };
    assert(find_key(seq![device_key], hex, true) == Some(device_key));
    assert(find_key(seq![k1], hex, true) == Some(k1));
    assert(find_key(seq![k2], hex, true) == Some(k2));
}


/// Only the first matching record counts: when the first record is for the
/// claimed key, the others are never read; when it is not, it is as if it
/// were absent. The same holds of [`verify_delegated`] and device records.
pub proof fn lemma_first_record_wins(
    keys: Seq<AgentKeyRecord>,
    public_key_hex: Seq<char>,
    scheme: KeyScheme,
    agent_id: Seq<char>,
    cert: DelegationCert,
    claimed_session_public_key_hex: Seq<char>,
    msg: Seq<u8>,
    sig: Seq<u8>,
    msg_timestamp: Timestamp,
)
    requires
        keys.len() > 0,
    ensures
        keys[0].public_key@ == public_key_hex ==> verify_outcome(
            keys,
            public_key_hex,
            scheme,
            msg,
            sig,
            msg_timestamp,
        ) == verify_outcome(seq![keys[0]], public_key_hex, scheme, msg, sig, msg_timestamp),
        keys[0].public_key@ != public_key_hex ==> verify_outcome(
            keys,
            public_key_hex,
            scheme,
            msg,
            sig,
            msg_timestamp,
        ) == verify_outcome(keys.drop_first(), public_key_hex, scheme, msg, sig, msg_timestamp),
        keys[0].public_key@ == lower_hex(cert.device_public_key@) && keys[0].is_device_key
            ==> verify_delegated_outcome(
            keys,
            agent_id,
            cert,
            claimed_session_public_key_hex,
            msg,
            sig,
            msg_timestamp,
        ) == verify_delegated_outcome(
            seq![keys[0]],
            agent_id,
            cert,
            claimed_session_public_key_hex,
            msg,
            sig,
            msg_timestamp,
        ),
        !(keys[0].public_key@ == lower_hex(cert.device_public_key@) && keys[0].is_device_key)
            ==> verify_delegated_outcome(
            keys,
            agent_id,
            cert,
            claimed_session_public_key_hex,
            msg,
            sig,
            msg_timestamp,
        ) == verify_delegated_outcome(
            keys.drop_first(),
            agent_id,
            cert,
            claimed_session_public_key_hex,
            msg,
            sig,
            msg_timestamp,
        ),
{
    let hex = lower_hex(cert.device_public_key@);
    lemma_find_key_skip_first(keys, public_key_hex, false);
    lemma_find_key_skip_first(keys, hex, true);
    assert(find_key(seq![keys[0]], public_key_hex, false) == Some(keys[0]) || !key_matches(
        keys[0],
        public_key_hex,
        false,
    ));
    assert(find_key(seq![keys[0]], hex, true) == Some(keys[0]) || !key_matches(
        keys[0],
        hex,
        true,
    ));
}

proof fn lemma_find_key_from_shift(
    keys: Seq<AgentKeyRecord>,
    public_key: Seq<char>,
    device_only: bool,
    start: int,
)
    requires
        1 <= start,
        keys.len() > 0,
    ensures
        find_key_from(keys, public_key, device_only, start) == find_key_from(
            keys.drop_first(),
            public_key,
            device_only,
            start - 1,
        ),
    decreases keys.len() - start,
{
    let rest = keys.drop_first();
    if start < keys.len() {
        assert(rest[start - 1] == keys[start]);
        lemma_find_key_from_shift(keys, public_key, device_only, start + 1);
        assert(find_key_from(rest, public_key, device_only, start - 1) == if key_matches(
            rest[start - 1],
            public_key,
            device_only,
        ) {
            Some(rest[start - 1])
        } else {
            find_key_from(rest, public_key, device_only, start)
        });
    } else {
        assert(find_key_from(keys, public_key, device_only, start) is None);
        assert(find_key_from(rest, public_key, device_only, start - 1) is None);
    }
}

proof fn lemma_find_key_skip_first(
    keys: Seq<AgentKeyRecord>,
    public_key: Seq<char>,
    device_only: bool,
)
    requires
        keys.len() > 0,
    ensures
        !key_matches(keys[0], public_key, device_only) ==> find_key(
            keys,
            public_key,
            device_only,
        ) == find_key(keys.drop_first(), public_key, device_only),
        key_matches(keys[0], public_key, device_only) ==> find_key(keys, public_key, device_only)
            == Some(keys[0]),
{
    lemma_find_key_from_shift(keys, public_key, device_only, 1);
}

} // verus!
