//! Canonical, domain-separated byte encodings for every signature the
//! agent-identity design verifies: a NUL-terminated ASCII domain tag, then
//! each field in order, fixed-width scalars written big-endian as they are,
//! variable-length values preceded by their length as a 4-byte big-endian
//! unsigned integer. Each builder's contract is its layout.

use vstd::prelude::*;
use vstd::string::StringSliceAdditionalSpecFns;
use vstd::utf8::encode_utf8;

use crate::proto::{
    AttestationContent, AttestedMessage, CertContent, DelegationCert, DeliveryAttestation,
    MessageContent,
};

verus! {

/// Big-endian bytes of a `u32`.
pub open spec fn u32_be(x: u32) -> Seq<u8> {
    seq![(x >> 24u32) as u8, (x >> 16u32) as u8, (x >> 8u32) as u8, x as u8]
}

/// Big-endian bytes of a `u64`.
pub open spec fn u64_be(x: u64) -> Seq<u8> {
    seq![
        (x >> 56u64) as u8,
        (x >> 48u64) as u8,
        (x >> 40u64) as u8,
        (x >> 32u64) as u8,
        (x >> 24u64) as u8,
        (x >> 16u64) as u8,
        (x >> 8u64) as u8,
        x as u8,
    ]
}

/// Big-endian two's-complement bytes of an `i64`.
pub open spec fn i64_be(x: i64) -> Seq<u8> {
    u64_be(x as u64)
}

/// Big-endian two's-complement bytes of an `i32`.
pub open spec fn i32_be(x: i32) -> Seq<u8> {
    u32_be(x as u32)
}

/// A value preceded by its length as a 4-byte big-endian `u32`.
pub open spec fn len_prefixed(value: Seq<u8>) -> Seq<u8> {
    u32_be(value.len() as u32) + value
}

fn push_u32_be(buf: &mut Vec<u8>, x: u32)
    ensures
        final(buf)@ == old(buf)@ + u32_be(x),
{
    buf.push((x >> 24u32) as u8);
    buf.push((x >> 16u32) as u8);
    buf.push((x >> 8u32) as u8);
    buf.push(x as u8);
    assert(buf@ =~= old(buf)@ + u32_be(x));
}

fn push_u64_be(buf: &mut Vec<u8>, x: u64)
    ensures
        final(buf)@ == old(buf)@ + u64_be(x),
{
    buf.push((x >> 56u64) as u8);
    buf.push((x >> 48u64) as u8);
    buf.push((x >> 40u64) as u8);
    buf.push((x >> 32u64) as u8);
    buf.push((x >> 24u64) as u8);
    buf.push((x >> 16u64) as u8);
    buf.push((x >> 8u64) as u8);
    buf.push(x as u8);
    assert(buf@ =~= old(buf)@ + u64_be(x));
}

fn push_bytes(buf: &mut Vec<u8>, bytes: &[u8])
    ensures
        final(buf)@ == old(buf)@ + bytes@,
{
    let mut i: usize = 0;
    while i < bytes.len()
        invariant
            i <= bytes@.len(),
            buf@ == old(buf)@ + bytes@.take(i as int),
        decreases bytes@.len() - i,
    {
        buf.push(bytes[i]);
        assert(bytes@.take(i + 1) =~= bytes@.take(i as int).push(bytes@[i as int]));
        i = i + 1;
    }
    assert(bytes@.take(bytes@.len() as int) =~= bytes@);
}

fn with_len_prefixed(buf: &mut Vec<u8>, value: &[u8])
    ensures
        final(buf)@ == old(buf)@ + len_prefixed(value@),
{
    push_u32_be(buf, value.len() as u32);
    push_bytes(buf, value);
    assert(buf@ =~= old(buf)@ + len_prefixed(value@));
}



/// A string's UTF-8 bytes, length-prefixed.
pub open spec fn str_field(s: Seq<char>) -> Seq<u8> {
    len_prefixed(encode_utf8(s))
}

/// The domain tags, one per kind of statement.
pub open spec fn self_proof_domain() -> Seq<u8> {
    "grorg.key-challenge.v1\0".spec_bytes()
}

pub open spec fn rename_domain() -> Seq<u8> {
    "grorg.agent-rename.v1\0".spec_bytes()
}

pub open spec fn delegation_domain() -> Seq<u8> {
    "grorg.key-delegation.v1\0".spec_bytes()
}

pub open spec fn revocation_domain() -> Seq<u8> {
    "grorg.key-revocation.v1\0".spec_bytes()
}

pub open spec fn rotation_domain() -> Seq<u8> {
    "grorg.root-rotation.v1\0".spec_bytes()
}

pub open spec fn session_delegation_domain() -> Seq<u8> {
    "gait.session-delegation.v1\0".spec_bytes()
}

pub open spec fn delivery_attestation_domain() -> Seq<u8> {
    "identitycrypto.delivery-attestation.v1\0".spec_bytes()
}

/// Layout of [`self_proof_transcript`].
pub open spec fn self_proof_bytes(nonce: Seq<u8>, new_public_key: Seq<u8>, scheme: i32) -> Seq<u8> {
    self_proof_domain() + (len_prefixed(nonce) + (new_public_key + seq![scheme as u8]))
}

/// Layout of [`rename_transcript`].
pub open spec fn rename_bytes(nonce: Seq<u8>, agent_id: Seq<char>, new_name: Seq<char>) -> Seq<u8> {
    rename_domain() + (len_prefixed(nonce) + (str_field(agent_id) + str_field(new_name)))
}

/// Layout of [`delegation_transcript`].
pub open spec fn delegation_bytes(agent_id: Seq<char>, new_public_key: Seq<u8>, scheme: i32) -> Seq<u8> {
    delegation_domain() + (str_field(agent_id) + (new_public_key + seq![scheme as u8]))
}

/// Layout of [`revocation_transcript`].
pub open spec fn revocation_bytes(agent_id: Seq<char>, public_key: Seq<u8>) -> Seq<u8> {
    revocation_domain() + (str_field(agent_id) + public_key)
}

/// Layout of [`rotation_transcript`].
pub open spec fn rotation_bytes(agent_id: Seq<char>, new_root_public_key: Seq<u8>) -> Seq<u8> {
    rotation_domain() + (str_field(agent_id) + new_root_public_key)
}

/// Layout of [`session_delegation_transcript`].
pub open spec fn session_delegation_bytes(
    agent_id: Seq<char>,
    device_public_key: Seq<u8>,
    session_public_key: Seq<u8>,
    not_before: i64,
    not_after: i64,
) -> Seq<u8> {
    session_delegation_domain() + (str_field(agent_id) + (device_public_key + (session_public_key
        + (i64_be(not_before) + i64_be(not_after)))))
}

/// The length-prefixed recipient keys, in order.
pub open spec fn keys_bytes(keys: Seq<Seq<u8>>) -> Seq<u8>
    decreases keys.len(),
{
    if keys.len() == 0 {
        Seq::empty()
    } else {
        len_prefixed(keys[0]) + keys_bytes(keys.drop_first())
    }
}

/// Encoding of an optional delegation certificate: a presence byte, then
/// (when present) its fields, the two keys length-prefixed.
pub open spec fn cert_bytes(cert: Option<CertContent>) -> Seq<u8> {
    match cert {
        None => seq![0u8],
        Some(c) => seq![1u8] + (str_field(c.agent_id) + (len_prefixed(c.device_public_key) + (
        len_prefixed(c.session_public_key) + (i64_be(c.not_before) + i64_be(c.not_after))))),
    }
}

/// Encoding of one attested message.
#[verifier::opaque]
pub open spec fn message_bytes(m: MessageContent) -> Seq<u8> {
    str_field(m.message_id) + (str_field(m.room_id) + (str_field(m.author_agent_id) + (str_field(
        m.body_text,
    ) + (i32_be(m.verification_outcome) + cert_bytes(m.delegation_cert)))))
}

/// The attested messages, in order.
pub open spec fn messages_bytes(messages: Seq<MessageContent>) -> Seq<u8>
    decreases messages.len(),
{
    if messages.len() == 0 {
        Seq::empty()
    } else {
        message_bytes(messages[0]) + messages_bytes(messages.drop_first())
    }
}

/// Layout of [`delivery_attestation_transcript`]: the recipient count is
/// written before the keys so that the list is self-delimiting; the
/// messages run to the end.
pub open spec fn delivery_attestation_bytes(a: AttestationContent) -> Seq<u8> {
    delivery_attestation_domain() + (u32_be(a.recipient_device_public_keys.len() as u32) + (
    keys_bytes(a.recipient_device_public_keys) + (str_field(a.key_id) + (u64_be(a.batch_sequence)
        + (i64_be(a.attested_at_seconds) + (i32_be(a.attested_at_nanos) + messages_bytes(
        a.messages,
    )))))))
}

fn start(tag: &str) -> (buf: Vec<u8>)
    ensures
        buf@ == tag.spec_bytes(),
{
    let mut buf: Vec<u8> = Vec::new();
    push_bytes(&mut buf, tag.as_bytes());
    assert(buf@ =~= tag.spec_bytes());
    buf
}

fn push_str_field(buf: &mut Vec<u8>, s: &str)
    ensures
        final(buf)@ == old(buf)@ + str_field(s@),
{
    with_len_prefixed(buf, s.as_bytes());
}

/// Outer "prove you hold this key right now" signature, used by the
/// genesis root at registration and by a newly added device key alike.
pub fn self_proof_transcript(nonce: &[u8], new_public_key: &[u8; 32], scheme: i32) -> (t: Vec<u8>)
    ensures
        t@ == self_proof_bytes(nonce@, new_public_key@, scheme),
{
    let mut buf = start("grorg.key-challenge.v1\0");
    with_len_prefixed(&mut buf, nonce);
    push_bytes(&mut buf, new_public_key);
    buf.push(scheme as u8);
    assert(buf@ =~= self_proof_bytes(nonce@, new_public_key@, scheme));
    buf
}

/// An agent's current root key vouching for a new human-facing name,
/// bound to a single-use challenge nonce so a captured signature can never
/// be replayed.
pub fn rename_transcript(nonce: &[u8], agent_id: &str, new_name: &str) -> (t: Vec<u8>)
    ensures
        t@ == rename_bytes(nonce@, agent_id@, new_name@),
{
    let mut buf = start("grorg.agent-rename.v1\0");
    with_len_prefixed(&mut buf, nonce);
    push_str_field(&mut buf, agent_id);
    push_str_field(&mut buf, new_name);
    assert(buf@ =~= rename_bytes(nonce@, agent_id@, new_name@));
    buf
}

/// Inner "an existing authority approved this addition" signature: root
/// delegating a device key.
pub fn delegation_transcript(agent_id: &str, new_public_key: &[u8; 32], scheme: i32) -> (t: Vec<u8>)
    ensures
        t@ == delegation_bytes(agent_id@, new_public_key@, scheme),
{
    let mut buf = start("grorg.key-delegation.v1\0");
    push_str_field(&mut buf, agent_id);
    push_bytes(&mut buf, new_public_key);
    buf.push(scheme as u8);
    assert(buf@ =~= delegation_bytes(agent_id@, new_public_key@, scheme));
    buf
}

/// Authorization signature for revoking a key (self- or root-signed).
pub fn revocation_transcript(agent_id: &str, public_key_being_revoked: &[u8; 32]) -> (t: Vec<u8>)
    ensures
        t@ == revocation_bytes(agent_id@, public_key_being_revoked@),
{
    let mut buf = start("grorg.key-revocation.v1\0");
    push_str_field(&mut buf, agent_id);
    push_bytes(&mut buf, public_key_being_revoked);
    assert(buf@ =~= revocation_bytes(agent_id@, public_key_being_revoked@));
    buf
}

/// Authorization signature for rotating the root: the old root vouching
/// for the new one.
pub fn rotation_transcript(agent_id: &str, new_root_public_key: &[u8; 32]) -> (t: Vec<u8>)
    ensures
        t@ == rotation_bytes(agent_id@, new_root_public_key@),
{
    let mut buf = start("grorg.root-rotation.v1\0");
    push_str_field(&mut buf, agent_id);
    push_bytes(&mut buf, new_root_public_key);
    assert(buf@ =~= rotation_bytes(agent_id@, new_root_public_key@));
    buf
}

/// A device key vouching for a session key that is never registered
/// anywhere, valid between the two bounds.
pub fn session_delegation_transcript(
    agent_id: &str,
    device_public_key: &[u8; 32],
    session_public_key: &[u8; 32],
    not_before_unix_seconds: i64,
    not_after_unix_seconds: i64,
) -> (t: Vec<u8>)
    ensures
        t@ == session_delegation_bytes(
            agent_id@,
            device_public_key@,
            session_public_key@,
            not_before_unix_seconds,
            not_after_unix_seconds,
        ),
{
    let mut buf = start("gait.session-delegation.v1\0");
    push_str_field(&mut buf, agent_id);
    push_bytes(&mut buf, device_public_key);
    push_bytes(&mut buf, session_public_key);
    push_u64_be(&mut buf, not_before_unix_seconds as u64);
    push_u64_be(&mut buf, not_after_unix_seconds as u64);
    assert(buf@ =~= session_delegation_bytes(
        agent_id@,
        device_public_key@,
        session_public_key@,
        not_before_unix_seconds,
        not_after_unix_seconds,
    ));
    buf
}

proof fn lemma_keys_bytes_push(keys: Seq<Seq<u8>>, key: Seq<u8>)
    ensures
        keys_bytes(keys.push(key)) == keys_bytes(keys) + len_prefixed(key),
    decreases keys.len(),
{
    let pushed = keys.push(key);
    if keys.len() == 0 {
        assert(pushed.drop_first() =~= Seq::<Seq<u8>>::empty());
        assert(keys_bytes(pushed.drop_first()) =~= Seq::<u8>::empty());
        assert(keys_bytes(keys) =~= Seq::<u8>::empty());
        assert(pushed[0] == key);
        assert(keys_bytes(pushed) =~= keys_bytes(keys) + len_prefixed(key));
    } else {
        assert(pushed.drop_first() =~= keys.drop_first().push(key));
        lemma_keys_bytes_push(keys.drop_first(), key);
        assert(pushed[0] == keys[0]);
        assert(keys_bytes(pushed) == len_prefixed(keys[0]) + keys_bytes(keys.drop_first().push(key)));
        assert(keys_bytes(pushed) =~= keys_bytes(keys) + len_prefixed(key));
    }
}

proof fn lemma_messages_bytes_push(messages: Seq<MessageContent>, m: MessageContent)
    ensures
        messages_bytes(messages.push(m)) == messages_bytes(messages) + message_bytes(m),
    decreases messages.len(),
{
    let pushed = messages.push(m);
    if messages.len() == 0 {
        assert(pushed.drop_first() =~= Seq::<MessageContent>::empty());
        assert(messages_bytes(pushed.drop_first()) =~= Seq::<u8>::empty());
        assert(messages_bytes(messages) =~= Seq::<u8>::empty());
        assert(pushed[0] == m);
        assert(messages_bytes(pushed) =~= messages_bytes(messages) + message_bytes(m));
    } else {
        assert(pushed.drop_first() =~= messages.drop_first().push(m));
        lemma_messages_bytes_push(messages.drop_first(), m);
        assert(pushed[0] == messages[0]);
        assert(messages_bytes(pushed) == message_bytes(messages[0]) + messages_bytes(
            messages.drop_first().push(m),
        ));
        assert(messages_bytes(pushed) =~= messages_bytes(messages) + message_bytes(m));
    }
}

fn push_cert(buf: &mut Vec<u8>, cert: &Option<DelegationCert>)
    ensures
        final(buf)@ == old(buf)@ + cert_bytes(crate::proto::cert_content(*cert)),
{
    match cert {
        None => {
            buf.push(0u8);
            assert(buf@ =~= old(buf)@ + cert_bytes(crate::proto::cert_content(*cert)));
        },
        Some(c) => {
            buf.push(1u8);
            push_str_field(buf, c.agent_id.as_str());
            with_len_prefixed(buf, c.device_public_key.as_slice());
            with_len_prefixed(buf, c.session_public_key.as_slice());
            push_u64_be(buf, c.not_before_unix_seconds as u64);
            push_u64_be(buf, c.not_after_unix_seconds as u64);
            assert(buf@ =~= old(buf)@ + cert_bytes(crate::proto::cert_content(*cert)));
        },
    }
}

fn push_message(buf: &mut Vec<u8>, m: &AttestedMessage)
    ensures
        final(buf)@ == old(buf)@ + message_bytes(m.signed_content()),
{
    push_str_field(buf, m.message_id.as_str());
    push_str_field(buf, m.room_id.as_str());
    push_str_field(buf, m.author_agent_id.as_str());
    push_str_field(buf, m.body_text.as_str());
    push_u32_be(buf, m.verification_outcome as u32);
    push_cert(buf, &m.delegation_cert);
    reveal(message_bytes);
    assert(buf@ =~= old(buf)@ + message_bytes(m.signed_content()));
}

fn push_recipient_keys(buf: &mut Vec<u8>, keys: &Vec<Vec<u8>>)
    ensures
        final(buf)@ == old(buf)@ + (u32_be(keys@.len() as u32) + keys_bytes(
            keys@.map_values(|k: Vec<u8>| k@),
        )),
{
    let ghost ks = keys@.map_values(|k: Vec<u8>| k@);
    push_u32_be(buf, keys.len() as u32);
    let ghost head = buf@;
    let mut i: usize = 0;
    while i < keys.len()
        invariant
            i <= keys@.len(),
            ks == keys@.map_values(|k: Vec<u8>| k@),
            head == old(buf)@ + u32_be(keys@.len() as u32),
            buf@ == head + keys_bytes(ks.take(i as int)),
        decreases keys@.len() - i,
    {
        with_len_prefixed(buf, keys[i].as_slice());
        proof {
            assert(ks.take(i + 1) =~= ks.take(i as int).push(ks[i as int]));
            lemma_keys_bytes_push(ks.take(i as int), ks[i as int]);
            assert(buf@ =~= head + keys_bytes(ks.take(i + 1)));
        }
        i = i + 1;
    }
    assert(ks.take(keys@.len() as int) =~= ks);
    assert(buf@ =~= old(buf)@ + (u32_be(keys@.len() as u32) + keys_bytes(ks)));
}

fn push_messages(buf: &mut Vec<u8>, messages: &Vec<AttestedMessage>)
    ensures
        final(buf)@ == old(buf)@ + messages_bytes(
            messages@.map_values(|m: AttestedMessage| m.signed_content()),
        ),
{
    let ghost ms = messages@.map_values(|m: AttestedMessage| m.signed_content());
    let mut j: usize = 0;
    while j < messages.len()
        invariant
            j <= messages@.len(),
            ms == messages@.map_values(|m: AttestedMessage| m.signed_content()),
            buf@ == old(buf)@ + messages_bytes(ms.take(j as int)),
        decreases messages@.len() - j,
    {
        push_message(buf, &messages[j]);
        proof {
            assert(ms.take(j + 1) =~= ms.take(j as int).push(ms[j as int]));
            lemma_messages_bytes_push(ms.take(j as int), ms[j as int]);
            assert(buf@ =~= old(buf)@ + messages_bytes(ms.take(j + 1)));
        }
        j = j + 1;
    }
    assert(ms.take(messages@.len() as int) =~= ms);
}

/// Canonical byte layout a delivery attestation's signature covers. The
/// message bodies travel inside the transcript itself.
pub fn delivery_attestation_transcript(attestation: &DeliveryAttestation) -> (t: Vec<u8>)
    ensures
        t@ == delivery_attestation_bytes(attestation.signed_content()),
{
    let mut buf = start("identitycrypto.delivery-attestation.v1\0");
    push_recipient_keys(&mut buf, &attestation.recipient_device_public_keys);
    push_str_field(&mut buf, attestation.key_id.as_str());
    push_u64_be(&mut buf, attestation.batch_sequence);
    let (attested_at_secs, attested_at_nanos): (i64, i32) = match &attestation.attested_at {
        Some(t) => (t.seconds, t.nanos),
        None => (0, 0),
    };
    push_u64_be(&mut buf, attested_at_secs as u64);
    push_u32_be(&mut buf, attested_at_nanos as u32);
    push_messages(&mut buf, &attestation.messages);
    assert(buf@ =~= delivery_attestation_bytes(attestation.signed_content()));
    buf
}

} // verus!
