//! What the transcripts bind: two signed statements share a transcript
//! only if they are the same statement, whatever their kinds.

use vstd::prelude::*;
use vstd::utf8::encode_utf8;

use crate::proto::{AttestationContent, CertContent, MessageContent};
use crate::transcripts::{
    cert_bytes, delegation_bytes, delegation_domain, delivery_attestation_bytes,
    delivery_attestation_domain, i32_be, i64_be, keys_bytes, len_prefixed, message_bytes,
    messages_bytes, rename_bytes, rename_domain, revocation_bytes, revocation_domain,
    rotation_bytes, rotation_domain, self_proof_bytes, self_proof_domain,
    session_delegation_bytes, session_delegation_domain, str_field, u32_be, u64_be,
};

verus! {

/// Every statement this crate produces a transcript for, with the inputs
/// its transcript covers.
pub enum SignedStatement {
    SelfProof { nonce: Seq<u8>, new_public_key: Seq<u8>, scheme: i32 },
    Rename { nonce: Seq<u8>, agent_id: Seq<char>, new_name: Seq<char> },
    Delegation { agent_id: Seq<char>, new_public_key: Seq<u8>, scheme: i32 },
    Revocation { agent_id: Seq<char>, public_key: Seq<u8> },
    Rotation { agent_id: Seq<char>, new_root_public_key: Seq<u8> },
    SessionDelegation {
        agent_id: Seq<char>,
        device_public_key: Seq<u8>,
        session_public_key: Seq<u8>,
        not_before: i64,
        not_after: i64,
    },
    DeliveryAttestation { content: AttestationContent },
}

/// A length a 4-byte prefix can hold.
pub open spec fn fits_u32(n: nat) -> bool {
    n <= u32::MAX
}

pub open spec fn str_fits(s: Seq<char>) -> bool {
    fits_u32(encode_utf8(s).len())
}

pub open spec fn cert_fits(c: Option<CertContent>) -> bool {
    match c {
        None => true,
        Some(c) => str_fits(c.agent_id) && fits_u32(c.device_public_key.len()) && fits_u32(
            c.session_public_key.len(),
        ),
    }
}

pub open spec fn message_fits(m: MessageContent) -> bool {
    &&& str_fits(m.message_id)
    &&& str_fits(m.room_id)
    &&& str_fits(m.author_agent_id)
    &&& str_fits(m.body_text)
    &&& cert_fits(m.delegation_cert)
}

pub open spec fn attestation_fits(a: AttestationContent) -> bool {
    &&& fits_u32(a.recipient_device_public_keys.len())
    &&& forall|i: int|
        0 <= i < a.recipient_device_public_keys.len() ==> fits_u32(
            #[trigger] a.recipient_device_public_keys[i].len(),
        )
    &&& str_fits(a.key_id)
    &&& forall|i: int| 0 <= i < a.messages.len() ==> message_fits(#[trigger] a.messages[i])
}

/// A scheme discriminant that the one scheme byte holds without loss.
pub open spec fn scheme_fits(scheme: i32) -> bool {
    0 <= scheme <= 255
}

impl SignedStatement {
    /// The transcript this crate builds for the statement.
    pub open spec fn transcript(self) -> Seq<u8> {
        match self {
            SignedStatement::SelfProof { nonce, new_public_key, scheme } => self_proof_bytes(
                nonce,
                new_public_key,
                scheme,
            ),
            SignedStatement::Rename { nonce, agent_id, new_name } => rename_bytes(
                nonce,
                agent_id,
                new_name,
            ),
            SignedStatement::Delegation { agent_id, new_public_key, scheme } => delegation_bytes(
                agent_id,
                new_public_key,
                scheme,
            ),
            SignedStatement::Revocation { agent_id, public_key } => revocation_bytes(
                agent_id,
                public_key,
            ),
            SignedStatement::Rotation { agent_id, new_root_public_key } => rotation_bytes(
                agent_id,
                new_root_public_key,
            ),
            SignedStatement::SessionDelegation {
                agent_id,
                device_public_key,
                session_public_key,
                not_before,
                not_after,
            } => session_delegation_bytes(
                agent_id,
                device_public_key,
                session_public_key,
                not_before,
                not_after,
            ),
            SignedStatement::DeliveryAttestation { content } => delivery_attestation_bytes(
                content,
            ),
        }
    }

    /// The inputs the crate's functions can be called with, and whose
    /// lengths the 4-byte prefixes and the scheme byte hold without loss.
    pub open spec fn well_formed(self) -> bool {
        match self {
            SignedStatement::SelfProof { nonce, new_public_key, scheme } => fits_u32(nonce.len())
                && new_public_key.len() == 32 && scheme_fits(scheme),
            SignedStatement::Rename { nonce, agent_id, new_name } => fits_u32(nonce.len())
                && str_fits(agent_id) && str_fits(new_name),
            SignedStatement::Delegation { agent_id, new_public_key, scheme } => str_fits(agent_id)
                && new_public_key.len() == 32 && scheme_fits(scheme),
            SignedStatement::Revocation { agent_id, public_key } => str_fits(agent_id)
                && public_key.len() == 32,
            SignedStatement::Rotation { agent_id, new_root_public_key } => str_fits(agent_id)
                && new_root_public_key.len() == 32,
            SignedStatement::SessionDelegation {
                agent_id,
                device_public_key,
                session_public_key,
                ..
            } => str_fits(agent_id) && device_public_key.len() == 32 && session_public_key.len()
                == 32,
            SignedStatement::DeliveryAttestation { content } => attestation_fits(content),
        }
    }

    /// The domain tag the statement's transcript starts with.
    pub open spec fn domain(self) -> Seq<u8> {
        match self {
            SignedStatement::SelfProof { .. } => self_proof_domain(),
            SignedStatement::Rename { .. } => rename_domain(),
            SignedStatement::Delegation { .. } => delegation_domain(),
            SignedStatement::Revocation { .. } => revocation_domain(),
            SignedStatement::Rotation { .. } => rotation_domain(),
            SignedStatement::SessionDelegation { .. } => session_delegation_domain(),
            SignedStatement::DeliveryAttestation { .. } => delivery_attestation_domain(),
        }
    }
}

proof fn lemma_u32_be_injective(x: u32, y: u32)
    requires
        u32_be(x) == u32_be(y),
    ensures
        x == y,
{
    assert(u32_be(x)[0] == u32_be(y)[0]);
    assert(u32_be(x)[1] == u32_be(y)[1]);
    assert(u32_be(x)[2] == u32_be(y)[2]);
    assert(u32_be(x)[3] == u32_be(y)[3]);
    assert(x == y) by (bit_vector)
        requires
            (x >> 24u32) as u8 == (y >> 24u32) as u8,
            (x >> 16u32) as u8 == (y >> 16u32) as u8,
            (x >> 8u32) as u8 == (y >> 8u32) as u8,
            x as u8 == y as u8,
    ;
}

proof fn lemma_u64_be_injective(x: u64, y: u64)
    requires
        u64_be(x) == u64_be(y),
    ensures
        x == y,
{
    assert(u64_be(x)[0] == u64_be(y)[0]);
    assert(u64_be(x)[1] == u64_be(y)[1]);
    assert(u64_be(x)[2] == u64_be(y)[2]);
    assert(u64_be(x)[3] == u64_be(y)[3]);
    assert(u64_be(x)[4] == u64_be(y)[4]);
    assert(u64_be(x)[5] == u64_be(y)[5]);
    assert(u64_be(x)[6] == u64_be(y)[6]);
    assert(u64_be(x)[7] == u64_be(y)[7]);
    assert(x == y) by (bit_vector)
        requires
            (x >> 56u64) as u8 == (y >> 56u64) as u8,
            (x >> 48u64) as u8 == (y >> 48u64) as u8,
            (x >> 40u64) as u8 == (y >> 40u64) as u8,
            (x >> 32u64) as u8 == (y >> 32u64) as u8,
            (x >> 24u64) as u8 == (y >> 24u64) as u8,
            (x >> 16u64) as u8 == (y >> 16u64) as u8,
            (x >> 8u64) as u8 == (y >> 8u64) as u8,
            x as u8 == y as u8,
    ;
}

proof fn lemma_i64_be_injective(x: i64, y: i64)
    requires
        i64_be(x) == i64_be(y),
    ensures
        x == y,
{
    lemma_u64_be_injective(x as u64, y as u64);
    assert(x == y) by (bit_vector)
        requires
            x as u64 == y as u64,
    ;
}

proof fn lemma_i32_be_injective(x: i32, y: i32)
    requires
        i32_be(x) == i32_be(y),
    ensures
        x == y,
{
    lemma_u32_be_injective(x as u32, y as u32);
    assert(x == y) by (bit_vector)
        requires
            x as u32 == y as u32,
    ;
}

/// Equal concatenations with equally long heads have equal heads and tails.
proof fn lemma_split(a: Seq<u8>, r1: Seq<u8>, b: Seq<u8>, r2: Seq<u8>)
    requires
        a.len() == b.len(),
        a + r1 == b + r2,
    ensures
        a == b,
        r1 == r2,
{
    assert(a =~= (a + r1).subrange(0, a.len() as int));
    assert(b =~= (b + r2).subrange(0, b.len() as int));
    assert(r1 =~= (a + r1).subrange(a.len() as int, (a + r1).len() as int));
    assert(r2 =~= (b + r2).subrange(b.len() as int, (b + r2).len() as int));
}

proof fn lemma_len_prefixed_split(a: Seq<u8>, r1: Seq<u8>, b: Seq<u8>, r2: Seq<u8>)
    requires
        fits_u32(a.len()),
        fits_u32(b.len()),
        len_prefixed(a) + r1 == len_prefixed(b) + r2,
    ensures
        a == b,
        r1 == r2,
{
    assert(len_prefixed(a) + r1 =~= u32_be(a.len() as u32) + (a + r1));
    assert(len_prefixed(b) + r2 =~= u32_be(b.len() as u32) + (b + r2));
    lemma_split(u32_be(a.len() as u32), a + r1, u32_be(b.len() as u32), b + r2);
    lemma_u32_be_injective(a.len() as u32, b.len() as u32);
    lemma_split(a, r1, b, r2);
}

proof fn lemma_str_field_split(s: Seq<char>, r1: Seq<u8>, t: Seq<char>, r2: Seq<u8>)
    requires
        str_fits(s),
        str_fits(t),
        str_field(s) + r1 == str_field(t) + r2,
    ensures
        s == t,
        r1 == r2,
{
    lemma_len_prefixed_split(encode_utf8(s), r1, encode_utf8(t), r2);
    vstd::utf8::encode_utf8_decode_utf8(s);
    vstd::utf8::encode_utf8_decode_utf8(t);
}


proof fn lemma_cert_split(c1: Option<CertContent>, r1: Seq<u8>, c2: Option<CertContent>, r2: Seq<u8>)
    requires
        cert_fits(c1),
        cert_fits(c2),
        cert_bytes(c1) + r1 == cert_bytes(c2) + r2,
    ensures
        c1 == c2,
        r1 == r2,
{
    let s = cert_bytes(c1) + r1;
    assert(s[0] == cert_bytes(c1)[0]);
    assert((cert_bytes(c2) + r2)[0] == cert_bytes(c2)[0]);
    match (c1, c2) {
        (None, None) => {
            lemma_split(seq![0u8], r1, seq![0u8], r2);
        },
        (Some(a), Some(b)) => {
            let ta = str_field(a.agent_id) + (len_prefixed(a.device_public_key) + (len_prefixed(
                a.session_public_key,
            ) + (i64_be(a.not_before) + (i64_be(a.not_after) + r1))));
            let tb = str_field(b.agent_id) + (len_prefixed(b.device_public_key) + (len_prefixed(
                b.session_public_key,
            ) + (i64_be(b.not_before) + (i64_be(b.not_after) + r2))));
            assert(cert_bytes(c1) + r1 =~= seq![1u8] + ta);
            assert(cert_bytes(c2) + r2 =~= seq![1u8] + tb);
            lemma_split(seq![1u8], ta, seq![1u8], tb);
            lemma_str_field_split(
                a.agent_id,
                len_prefixed(a.device_public_key) + (len_prefixed(a.session_public_key) + (i64_be(
                    a.not_before,
                ) + (i64_be(a.not_after) + r1))),
                b.agent_id,
                len_prefixed(b.device_public_key) + (len_prefixed(b.session_public_key) + (i64_be(
                    b.not_before,
                ) + (i64_be(b.not_after) + r2))),
            );
            lemma_len_prefixed_split(
                a.device_public_key,
                len_prefixed(a.session_public_key) + (i64_be(a.not_before) + (i64_be(a.not_after)
                    + r1)),
                b.device_public_key,
                len_prefixed(b.session_public_key) + (i64_be(b.not_before) + (i64_be(b.not_after)
                    + r2)),
            );
            lemma_len_prefixed_split(
                a.session_public_key,
                i64_be(a.not_before) + (i64_be(a.not_after) + r1),
                b.session_public_key,
                i64_be(b.not_before) + (i64_be(b.not_after) + r2),
            );
            lemma_split(
                i64_be(a.not_before),
                i64_be(a.not_after) + r1,
                i64_be(b.not_before),
                i64_be(b.not_after) + r2,
            );
            lemma_i64_be_injective(a.not_before, b.not_before);
            lemma_split(i64_be(a.not_after), r1, i64_be(b.not_after), r2);
            lemma_i64_be_injective(a.not_after, b.not_after);
        },
        (None, Some(_)) => {
            assert(false);
        },
        (Some(_), None) => {
            assert(false);
        },
    }
}

proof fn lemma_assoc(a: Seq<u8>, b: Seq<u8>, r: Seq<u8>)
    ensures
        (a + b) + r == a + (b + r),
{
    assert((a + b) + r =~= a + (b + r));
}

proof fn lemma_message_split(m1: MessageContent, r1: Seq<u8>, m2: MessageContent, r2: Seq<u8>)
    requires
        message_fits(m1),
        message_fits(m2),
        message_bytes(m1) + r1 == message_bytes(m2) + r2,
    ensures
        m1 == m2,
        r1 == r2,
{
    reveal(message_bytes);
    let c1 = cert_bytes(m1.delegation_cert);
    let c2 = cert_bytes(m2.delegation_cert);
    let o1 = i32_be(m1.verification_outcome);
    let o2 = i32_be(m2.verification_outcome);
    let b1 = str_field(m1.body_text);
    let b2 = str_field(m2.body_text);
    let a1 = str_field(m1.author_agent_id);
    let a2 = str_field(m2.author_agent_id);
    let q1 = str_field(m1.room_id);
    let q2 = str_field(m2.room_id);
    let i1 = str_field(m1.message_id);
    let i2 = str_field(m2.message_id);
    lemma_assoc(i1, q1 + (a1 + (b1 + (o1 + c1))), r1);
    lemma_assoc(i2, q2 + (a2 + (b2 + (o2 + c2))), r2);
    lemma_str_field_split(
        m1.message_id,
        (q1 + (a1 + (b1 + (o1 + c1)))) + r1,
        m2.message_id,
        (q2 + (a2 + (b2 + (o2 + c2)))) + r2,
    );
    lemma_assoc(q1, a1 + (b1 + (o1 + c1)), r1);
    lemma_assoc(q2, a2 + (b2 + (o2 + c2)), r2);
    lemma_str_field_split(
        m1.room_id,
        (a1 + (b1 + (o1 + c1))) + r1,
        m2.room_id,
        (a2 + (b2 + (o2 + c2))) + r2,
    );
    lemma_assoc(a1, b1 + (o1 + c1), r1);
    lemma_assoc(a2, b2 + (o2 + c2), r2);
    lemma_str_field_split(
        m1.author_agent_id,
        (b1 + (o1 + c1)) + r1,
        m2.author_agent_id,
        (b2 + (o2 + c2)) + r2,
    );
    lemma_assoc(b1, o1 + c1, r1);
    lemma_assoc(b2, o2 + c2, r2);
    lemma_str_field_split(m1.body_text, (o1 + c1) + r1, m2.body_text, (o2 + c2) + r2);
    lemma_assoc(o1, c1, r1);
    lemma_assoc(o2, c2, r2);
    lemma_split(o1, c1 + r1, o2, c2 + r2);
    lemma_i32_be_injective(m1.verification_outcome, m2.verification_outcome);
    lemma_cert_split(m1.delegation_cert, r1, m2.delegation_cert, r2);
}

proof fn lemma_message_bytes_nonempty(m: MessageContent)
    ensures
        message_bytes(m).len() > 0,
{
    reveal(message_bytes);
}

proof fn lemma_messages_injective(ms1: Seq<MessageContent>, ms2: Seq<MessageContent>)
    requires
        forall|i: int| 0 <= i < ms1.len() ==> message_fits(#[trigger] ms1[i]),
        forall|i: int| 0 <= i < ms2.len() ==> message_fits(#[trigger] ms2[i]),
        messages_bytes(ms1) == messages_bytes(ms2),
    ensures
        ms1 == ms2,
    decreases ms1.len(),
{
    if ms1.len() == 0 || ms2.len() == 0 {
        if ms1.len() != 0 {
            lemma_message_bytes_nonempty(ms1[0]);
            assert(messages_bytes(ms1) == message_bytes(ms1[0]) + messages_bytes(
                ms1.drop_first(),
            ));
        }
        if ms2.len() != 0 {
            lemma_message_bytes_nonempty(ms2[0]);
            assert(messages_bytes(ms2) == message_bytes(ms2[0]) + messages_bytes(
                ms2.drop_first(),
            ));
        }
        assert(ms1 =~= ms2);
    } else {
        lemma_message_split(
            ms1[0],
            messages_bytes(ms1.drop_first()),
            ms2[0],
            messages_bytes(ms2.drop_first()),
        );
        assert forall|i: int| 0 <= i < ms1.drop_first().len() implies message_fits(
            #[trigger] ms1.drop_first()[i],
        ) by {
            assert(ms1.drop_first()[i] == ms1[i + 1]);
        }
        assert forall|i: int| 0 <= i < ms2.drop_first().len() implies message_fits(
            #[trigger] ms2.drop_first()[i],
        ) by {
            assert(ms2.drop_first()[i] == ms2[i + 1]);
        }
        lemma_messages_injective(ms1.drop_first(), ms2.drop_first());
        assert forall|i: int| 0 <= i < ms1.len() implies ms1[i] == ms2[i] by {
            if i > 0 {
                assert(ms1[i] == ms1.drop_first()[i - 1]);
                assert(ms2[i] == ms2.drop_first()[i - 1]);
            }
        }
        assert(ms1 =~= ms2);
    }
}

proof fn lemma_keys_split(ks1: Seq<Seq<u8>>, r1: Seq<u8>, ks2: Seq<Seq<u8>>, r2: Seq<u8>)
    requires
        ks1.len() == ks2.len(),
        forall|i: int| 0 <= i < ks1.len() ==> fits_u32(#[trigger] ks1[i].len()),
        forall|i: int| 0 <= i < ks2.len() ==> fits_u32(#[trigger] ks2[i].len()),
        keys_bytes(ks1) + r1 == keys_bytes(ks2) + r2,
    ensures
        ks1 == ks2,
        r1 == r2,
    decreases ks1.len(),
{
    if ks1.len() == 0 {
        assert(keys_bytes(ks1) =~= Seq::<u8>::empty());
        assert(keys_bytes(ks2) =~= Seq::<u8>::empty());
        assert(keys_bytes(ks1) + r1 =~= r1);
        assert(keys_bytes(ks2) + r2 =~= r2);
        assert(ks1 =~= ks2);
    } else {
        let rest1 = keys_bytes(ks1.drop_first()) + r1;
        let rest2 = keys_bytes(ks2.drop_first()) + r2;
        assert(keys_bytes(ks1) + r1 =~= len_prefixed(ks1[0]) + rest1);
        assert(keys_bytes(ks2) + r2 =~= len_prefixed(ks2[0]) + rest2);
        lemma_len_prefixed_split(ks1[0], rest1, ks2[0], rest2);
        assert forall|i: int| 0 <= i < ks1.drop_first().len() implies fits_u32(
            #[trigger] ks1.drop_first()[i].len(),
        ) by {
            assert(ks1.drop_first()[i] == ks1[i + 1]);
        }
        assert forall|i: int| 0 <= i < ks2.drop_first().len() implies fits_u32(
            #[trigger] ks2.drop_first()[i].len(),
        ) by {
            assert(ks2.drop_first()[i] == ks2[i + 1]);
        }
        lemma_keys_split(ks1.drop_first(), r1, ks2.drop_first(), r2);
        assert forall|i: int| 0 <= i < ks1.len() implies ks1[i] == ks2[i] by {
            if i > 0 {
                assert(ks1[i] == ks1.drop_first()[i - 1]);
                assert(ks2[i] == ks2.drop_first()[i - 1]);
            }
        }
        assert(ks1 =~= ks2);
    }
}


proof fn lemma_attestation_injective(a1: AttestationContent, a2: AttestationContent)
    requires
        attestation_fits(a1),
        attestation_fits(a2),
        delivery_attestation_bytes(a1) == delivery_attestation_bytes(a2),
    ensures
        a1 == a2,
{
    let d = delivery_attestation_domain();
    let k1 = a1.recipient_device_public_keys;
    let k2 = a2.recipient_device_public_keys;
    let n1 = i32_be(a1.attested_at_nanos) + messages_bytes(a1.messages);
    let n2 = i32_be(a2.attested_at_nanos) + messages_bytes(a2.messages);
    let t1 = i64_be(a1.attested_at_seconds) + n1;
    let t2 = i64_be(a2.attested_at_seconds) + n2;
    let q1 = u64_be(a1.batch_sequence) + t1;
    let q2 = u64_be(a2.batch_sequence) + t2;
    let s1 = str_field(a1.key_id) + q1;
    let s2 = str_field(a2.key_id) + q2;
    let c1 = keys_bytes(k1) + s1;
    let c2 = keys_bytes(k2) + s2;
    lemma_split(d, u32_be(k1.len() as u32) + c1, d, u32_be(k2.len() as u32) + c2);
    lemma_split(u32_be(k1.len() as u32), c1, u32_be(k2.len() as u32), c2);
    lemma_u32_be_injective(k1.len() as u32, k2.len() as u32);
    lemma_keys_split(k1, s1, k2, s2);
    lemma_str_field_split(a1.key_id, q1, a2.key_id, q2);
    lemma_split(u64_be(a1.batch_sequence), t1, u64_be(a2.batch_sequence), t2);
    lemma_u64_be_injective(a1.batch_sequence, a2.batch_sequence);
    lemma_split(i64_be(a1.attested_at_seconds), n1, i64_be(a2.attested_at_seconds), n2);
    lemma_i64_be_injective(a1.attested_at_seconds, a2.attested_at_seconds);
    lemma_split(
        i32_be(a1.attested_at_nanos),
        messages_bytes(a1.messages),
        i32_be(a2.attested_at_nanos),
        messages_bytes(a2.messages),
    );
    lemma_i32_be_injective(a1.attested_at_nanos, a2.attested_at_nanos);
    lemma_messages_injective(a1.messages, a2.messages);
}

proof fn lemma_str_field_injective(s: Seq<char>, t: Seq<char>)
    requires
        str_fits(s),
        str_fits(t),
        str_field(s) == str_field(t),
    ensures
        s == t,
{
    assert(str_field(s) + Seq::<u8>::empty() =~= str_field(s));
    assert(str_field(t) + Seq::<u8>::empty() =~= str_field(t));
    lemma_str_field_split(s, Seq::empty(), t, Seq::empty());
}

proof fn lemma_scheme_byte_injective(k1: Seq<u8>, s1: i32, k2: Seq<u8>, s2: i32)
    requires
        k1.len() == k2.len(),
        scheme_fits(s1),
        scheme_fits(s2),
        k1 + seq![s1 as u8] == k2 + seq![s2 as u8],
    ensures
        k1 == k2,
        s1 == s2,
{
    lemma_split(k1, seq![s1 as u8], k2, seq![s2 as u8]);
    assert(seq![s1 as u8][0] == seq![s2 as u8][0]);
    assert(s1 == s2) by (bit_vector)
        requires
            s1 as u8 == s2 as u8,
            0 <= s1 <= 255,
            0 <= s2 <= 255,
    ;
}

proof fn lemma_self_proof_injective(
    n1: Seq<u8>,
    k1: Seq<u8>,
    s1: i32,
    n2: Seq<u8>,
    k2: Seq<u8>,
    s2: i32,
)
    requires
        fits_u32(n1.len()),
        fits_u32(n2.len()),
        k1.len() == 32,
        k2.len() == 32,
        scheme_fits(s1),
        scheme_fits(s2),
        self_proof_bytes(n1, k1, s1) == self_proof_bytes(n2, k2, s2),
    ensures
        n1 == n2,
        k1 == k2,
        s1 == s2,
{
    let d = self_proof_domain();
    lemma_split(
        d,
        len_prefixed(n1) + (k1 + seq![s1 as u8]),
        d,
        len_prefixed(n2) + (k2 + seq![s2 as u8]),
    );
    lemma_len_prefixed_split(n1, k1 + seq![s1 as u8], n2, k2 + seq![s2 as u8]);
    lemma_scheme_byte_injective(k1, s1, k2, s2);
}

proof fn lemma_rename_injective(
    n1: Seq<u8>,
    a1: Seq<char>,
    m1: Seq<char>,
    n2: Seq<u8>,
    a2: Seq<char>,
    m2: Seq<char>,
)
    requires
        fits_u32(n1.len()),
        fits_u32(n2.len()),
        str_fits(a1),
        str_fits(a2),
        str_fits(m1),
        str_fits(m2),
        rename_bytes(n1, a1, m1) == rename_bytes(n2, a2, m2),
    ensures
        n1 == n2,
        a1 == a2,
        m1 == m2,
{
    let d = rename_domain();
    lemma_split(
        d,
        len_prefixed(n1) + (str_field(a1) + str_field(m1)),
        d,
        len_prefixed(n2) + (str_field(a2) + str_field(m2)),
    );
    lemma_len_prefixed_split(
        n1,
        str_field(a1) + str_field(m1),
        n2,
        str_field(a2) + str_field(m2),
    );
    lemma_str_field_split(a1, str_field(m1), a2, str_field(m2));
    lemma_str_field_injective(m1, m2);
}

proof fn lemma_delegation_injective(
    a1: Seq<char>,
    k1: Seq<u8>,
    s1: i32,
    a2: Seq<char>,
    k2: Seq<u8>,
    s2: i32,
)
    requires
        str_fits(a1),
        str_fits(a2),
        k1.len() == 32,
        k2.len() == 32,
        scheme_fits(s1),
        scheme_fits(s2),
        delegation_bytes(a1, k1, s1) == delegation_bytes(a2, k2, s2),
    ensures
        a1 == a2,
        k1 == k2,
        s1 == s2,
{
    let d = delegation_domain();
    lemma_split(
        d,
        str_field(a1) + (k1 + seq![s1 as u8]),
        d,
        str_field(a2) + (k2 + seq![s2 as u8]),
    );
    lemma_str_field_split(a1, k1 + seq![s1 as u8], a2, k2 + seq![s2 as u8]);
    lemma_scheme_byte_injective(k1, s1, k2, s2);
}

proof fn lemma_revocation_injective(a1: Seq<char>, k1: Seq<u8>, a2: Seq<char>, k2: Seq<u8>)
    requires
        str_fits(a1),
        str_fits(a2),
        revocation_bytes(a1, k1) == revocation_bytes(a2, k2),
    ensures
        a1 == a2,
        k1 == k2,
{
    let d = revocation_domain();
    lemma_split(d, str_field(a1) + k1, d, str_field(a2) + k2);
    lemma_str_field_split(a1, k1, a2, k2);
}

proof fn lemma_rotation_injective(a1: Seq<char>, k1: Seq<u8>, a2: Seq<char>, k2: Seq<u8>)
    requires
        str_fits(a1),
        str_fits(a2),
        rotation_bytes(a1, k1) == rotation_bytes(a2, k2),
    ensures
        a1 == a2,
        k1 == k2,
{
    let d = rotation_domain();
    lemma_split(d, str_field(a1) + k1, d, str_field(a2) + k2);
    lemma_str_field_split(a1, k1, a2, k2);
}

proof fn lemma_session_delegation_injective(
    a1: Seq<char>,
    d1: Seq<u8>,
    e1: Seq<u8>,
    b1: i64,
    f1: i64,
    a2: Seq<char>,
    d2: Seq<u8>,
    e2: Seq<u8>,
    b2: i64,
    f2: i64,
)
    requires
        str_fits(a1),
        str_fits(a2),
        d1.len() == 32,
        d2.len() == 32,
        e1.len() == 32,
        e2.len() == 32,
        session_delegation_bytes(a1, d1, e1, b1, f1) == session_delegation_bytes(a2, d2, e2, b2, f2),
    ensures
        a1 == a2,
        d1 == d2,
        e1 == e2,
        b1 == b2,
        f1 == f2,
{
    let d = session_delegation_domain();
    let w1 = i64_be(b1) + i64_be(f1);
    let w2 = i64_be(b2) + i64_be(f2);
    lemma_split(d, str_field(a1) + (d1 + (e1 + w1)), d, str_field(a2) + (d2 + (e2 + w2)));
    lemma_str_field_split(a1, d1 + (e1 + w1), a2, d2 + (e2 + w2));
    lemma_split(d1, e1 + w1, d2, e2 + w2);
    lemma_split(e1, w1, e2, w2);
    lemma_split(i64_be(b1), i64_be(f1), i64_be(b2), i64_be(f2));
    lemma_i64_be_injective(b1, b2);
    lemma_i64_be_injective(f1, f2);
}


/// The bytes at which the seven domain tags first tell each other apart.
pub open spec fn domain_marker(d: Seq<u8>) -> (u8, u8, u8, u8) {
    (d[0], d[1], d[6], d[10])
}

proof fn lemma_domain_markers()
    ensures
        self_proof_domain().len() == 23,
        rename_domain().len() == 22,
        delegation_domain().len() == 24,
        revocation_domain().len() == 24,
        rotation_domain().len() == 23,
        session_delegation_domain().len() == 27,
        delivery_attestation_domain().len() == 39,
        domain_marker(self_proof_domain()) == ('g' as u8, 'r' as u8, 'k' as u8, 'c' as u8),
        domain_marker(rename_domain()) == ('g' as u8, 'r' as u8, 'a' as u8, 't' as u8),
        domain_marker(delegation_domain()) == ('g' as u8, 'r' as u8, 'k' as u8, 'd' as u8),
        domain_marker(revocation_domain()) == ('g' as u8, 'r' as u8, 'k' as u8, 'r' as u8),
        domain_marker(rotation_domain()) == ('g' as u8, 'r' as u8, 'r' as u8, '-' as u8),
        domain_marker(session_delegation_domain()) == ('g' as u8, 'a' as u8, 'e' as u8, 'o' as u8),
        domain_marker(delivery_attestation_domain()) == ('i' as u8, 'd' as u8, 't' as u8, 'y' as u8),
{
    broadcast use vstd::string::is_ascii_spec_bytes;

    reveal_strlit("grorg.key-challenge.v1\0");
    reveal_strlit("grorg.agent-rename.v1\0");
    reveal_strlit("grorg.key-delegation.v1\0");
    reveal_strlit("grorg.key-revocation.v1\0");
    reveal_strlit("grorg.root-rotation.v1\0");
    reveal_strlit("gait.session-delegation.v1\0");
    reveal_strlit("identitycrypto.delivery-attestation.v1\0");
    assert(vstd::string::is_ascii("grorg.key-challenge.v1\0"));
    assert(vstd::string::is_ascii("grorg.agent-rename.v1\0"));
    assert(vstd::string::is_ascii("grorg.key-delegation.v1\0"));
    assert(vstd::string::is_ascii("grorg.key-revocation.v1\0"));
    assert(vstd::string::is_ascii("grorg.root-rotation.v1\0"));
    assert(vstd::string::is_ascii("gait.session-delegation.v1\0"));
    assert(vstd::string::is_ascii("identitycrypto.delivery-attestation.v1\0"));
}

proof fn lemma_starts_with_domain(st: SignedStatement)
    requires
        st.domain().len() >= 11,
    ensures
        domain_marker(st.transcript()) == domain_marker(st.domain()),
{
}

/// Two well-formed signed statements, of the same kind or of different
/// kinds, have the same transcript exactly when they are the same
/// statement: every transcript binds every input it covers, and no two
/// domains ever collide.
pub proof fn lemma_transcripts_bind_statements(a: SignedStatement, b: SignedStatement)
    requires
        a.well_formed(),
        b.well_formed(),
    ensures
        a.transcript() == b.transcript() <==> a == b,
{
    if a.transcript() == b.transcript() {
        lemma_domain_markers();
        lemma_starts_with_domain(a);
        lemma_starts_with_domain(b);
        match a {
            SignedStatement::SelfProof { nonce, new_public_key, scheme } => {
                if let SignedStatement::SelfProof { nonce: n2, new_public_key: k2, scheme: s2 } = b {
                    lemma_self_proof_injective(nonce, new_public_key, scheme, n2, k2, s2);
                }
            },
            SignedStatement::Rename { nonce, agent_id, new_name } => {
                if let SignedStatement::Rename { nonce: n2, agent_id: a2, new_name: m2 } = b {
                    lemma_rename_injective(nonce, agent_id, new_name, n2, a2, m2);
                }
            },
            SignedStatement::Delegation { agent_id, new_public_key, scheme } => {
                if let SignedStatement::Delegation {
                    agent_id: a2,
                    new_public_key: k2,
                    scheme: s2,
                } = b {
                    lemma_delegation_injective(agent_id, new_public_key, scheme, a2, k2, s2);
                }
            },
            SignedStatement::Revocation { agent_id, public_key } => {
                if let SignedStatement::Revocation { agent_id: a2, public_key: k2 } = b {
                    lemma_revocation_injective(agent_id, public_key, a2, k2);
                }
            },
            SignedStatement::Rotation { agent_id, new_root_public_key } => {
                if let SignedStatement::Rotation { agent_id: a2, new_root_public_key: k2 } = b {
                    lemma_rotation_injective(agent_id, new_root_public_key, a2, k2);
                }
            },
            SignedStatement::SessionDelegation {
                agent_id,
                device_public_key,
                session_public_key,
                not_before,
                not_after,
            } => {
                if let SignedStatement::SessionDelegation {
                    agent_id: a2,
                    device_public_key: d2,
                    session_public_key: e2,
                    not_before: b2,
                    not_after: f2,
                } = b {
                    lemma_session_delegation_injective(
                        agent_id,
                        device_public_key,
                        session_public_key,
                        not_before,
                        not_after,
                        a2,
                        d2,
                        e2,
                        b2,
                        f2,
                    );
                }
            },
            SignedStatement::DeliveryAttestation { content } => {
                if let SignedStatement::DeliveryAttestation { content: c2 } = b {
                    lemma_attestation_injective(content, c2);
                }
            },
        }
    }
}

} // verus!
