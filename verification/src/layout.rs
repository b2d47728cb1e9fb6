//! What the transcript bytes mean, read back independently of how they are
//! built: where each field sits, and the number each fixed-width field holds
//! when read as a big-endian integer.

use vstd::prelude::*;

use vstd::utf8::encode_utf8;

use crate::proto::{AttestationContent, CertContent, MessageContent};
use crate::transcripts::{
    cert_bytes, delegation_bytes, delegation_domain, delivery_attestation_bytes,
    delivery_attestation_domain, i32_be, i64_be, keys_bytes, len_prefixed, message_bytes,
    messages_bytes, rename_bytes, rename_domain, revocation_bytes, revocation_domain,
    rotation_bytes, rotation_domain, self_proof_bytes, self_proof_domain,
    session_delegation_bytes, session_delegation_domain, u32_be, u64_be,
};

verus! {

/// The unsigned number some bytes spell, most significant byte first.
pub open spec fn be_value(bytes: Seq<u8>) -> nat
    decreases bytes.len(),
{
    if bytes.len() == 0 {
        0
    } else {
        be_value(bytes.drop_last()) * 256 + bytes.last() as nat
    }
}

proof fn lemma_be_value_4(b: Seq<u8>)
    requires
        b.len() == 4,
    ensures
        be_value(b) == ((b[0] as nat * 256 + b[1] as nat) * 256 + b[2] as nat) * 256 + b[3] as nat,
{
    reveal_with_fuel(be_value, 5);
    assert(b.drop_last().drop_last().drop_last().drop_last() =~= Seq::<u8>::empty());
}

proof fn lemma_be_value_8(b: Seq<u8>)
    requires
        b.len() == 8,
    ensures
        be_value(b) == ((((((b[0] as nat * 256 + b[1] as nat) * 256 + b[2] as nat) * 256
            + b[3] as nat) * 256 + b[4] as nat) * 256 + b[5] as nat) * 256 + b[6] as nat) * 256
            + b[7] as nat,
{
    reveal_with_fuel(be_value, 9);
    assert(b.drop_last().drop_last().drop_last().drop_last().drop_last().drop_last().drop_last(
    ).drop_last() =~= Seq::<u8>::empty());
}

/// A 4-byte field is `x.to_be_bytes()`: four bytes that, read
/// most-significant first, give back `x`.
pub proof fn lemma_u32_field_is_big_endian(x: u32)
    ensures
        u32_be(x).len() == 4,
        be_value(u32_be(x)) == x,
{
    let b = u32_be(x);
    lemma_be_value_4(b);
    let b0 = b[0];
    let b1 = b[1];
    let b2 = b[2];
    let b3 = b[3];
    assert(((b0 as u64 * 256 + b1 as u64) * 256 + b2 as u64) * 256 + b3 as u64 == x as u64)
        by (bit_vector)
        requires
            b0 == (x >> 24u32) as u8,
            b1 == (x >> 16u32) as u8,
            b2 == (x >> 8u32) as u8,
            b3 == x as u8,
    ;
}

/// An 8-byte field is `x.to_be_bytes()`: eight bytes that, read
/// most-significant first, give back `x`.
pub proof fn lemma_u64_field_is_big_endian(x: u64)
    ensures
        u64_be(x).len() == 8,
        be_value(u64_be(x)) == x,
{
    let b = u64_be(x);
    lemma_be_value_8(b);
    let b0 = b[0];
    let b1 = b[1];
    let b2 = b[2];
    let b3 = b[3];
    let b4 = b[4];
    let b5 = b[5];
    let b6 = b[6];
    let b7 = b[7];
    assert(((((((b0 as u128 * 256 + b1 as u128) * 256 + b2 as u128) * 256 + b3 as u128) * 256
        + b4 as u128) * 256 + b5 as u128) * 256 + b6 as u128) * 256 + b7 as u128 == x as u128)
        by (bit_vector)
        requires
            b0 == (x >> 56u64) as u8,
            b1 == (x >> 48u64) as u8,
            b2 == (x >> 40u64) as u8,
            b3 == (x >> 32u64) as u8,
            b4 == (x >> 24u64) as u8,
            b5 == (x >> 16u64) as u8,
            b6 == (x >> 8u64) as u8,
            b7 == x as u8,
    ;
}


/// The unsigned 64-bit pattern of a signed number (two's complement).
pub open spec fn bits64(x: i64) -> nat {
    if x >= 0 {
        x as nat
    } else {
        (x + 0x1_0000_0000_0000_0000) as nat
    }
}

/// The unsigned 32-bit pattern of a signed number (two's complement).
pub open spec fn bits32(x: i32) -> nat {
    if x >= 0 {
        x as nat
    } else {
        (x + 0x1_0000_0000) as nat
    }
}

/// A signed 8-byte field is `x.to_be_bytes()`: its bytes, read
/// most-significant first, give `x`'s two's-complement pattern.
pub proof fn lemma_i64_field_is_big_endian(x: i64)
    ensures
        i64_be(x).len() == 8,
        be_value(i64_be(x)) == bits64(x),
{
    lemma_u64_field_is_big_endian(x as u64);
    if x >= 0 {
        assert(x as u64 as i128 == x as i128) by (bit_vector)
            requires
                x >= 0,
        ;
    } else {
        assert(x as u64 as i128 == x as i128 + 0x1_0000_0000_0000_0000i128) by (bit_vector)
            requires
                x < 0,
        ;
    }
}

/// A signed 4-byte field is `x.to_be_bytes()`: its bytes, read
/// most-significant first, give `x`'s two's-complement pattern.
pub proof fn lemma_i32_field_is_big_endian(x: i32)
    ensures
        i32_be(x).len() == 4,
        be_value(i32_be(x)) == bits32(x),
{
    lemma_u32_field_is_big_endian(x as u32);
    if x >= 0 {
        assert(x as u32 as i64 == x as i64) by (bit_vector)
            requires
                x >= 0,
        ;
    } else {
        assert(x as u32 as i64 == x as i64 + 0x1_0000_0000i64) by (bit_vector)
            requires
                x < 0,
        ;
    }
}

/// A length-prefixed value is its length in four big-endian bytes, then
/// the value itself.
pub proof fn lemma_len_prefixed_layout(value: Seq<u8>)
    requires
        value.len() <= u32::MAX,
    ensures
        len_prefixed(value).len() == value.len() + 4,
        be_value(len_prefixed(value).subrange(0, 4)) == value.len(),
        len_prefixed(value).subrange(4, value.len() + 4int) == value,
{
    lemma_u32_field_is_big_endian(value.len() as u32);
    assert(len_prefixed(value).subrange(0, 4) =~= u32_be(value.len() as u32));
    assert(len_prefixed(value).subrange(4, value.len() + 4int) =~= value);
}

/// The bytes of `t` from `start` on, `len` of them.
pub open spec fn field(t: Seq<u8>, start: int, len: int) -> Seq<u8> {
    t.subrange(start, start + len)
}

/// Whether `t` holds, from `start` on, a 4-byte big-endian length and then
/// exactly `value`.
pub open spec fn prefixed_at(t: Seq<u8>, start: int, value: Seq<u8>) -> bool {
    &&& start + 4 + value.len() <= t.len()
    &&& be_value(field(t, start, 4)) == value.len()
    &&& field(t, start + 4, value.len() as int) == value
}

/// What follows `start` in `t` is `a` then `b`: so `a` sits at `start`, and
/// `b` is what follows it.
proof fn lemma_parts(t: Seq<u8>, start: int, a: Seq<u8>, b: Seq<u8>)
    requires
        0 <= start <= t.len(),
        t.subrange(start, t.len() as int) == a + b,
    ensures
        field(t, start, a.len() as int) == a,
        t.subrange(start + a.len(), t.len() as int) == b,
        t.len() == start + a.len() + b.len(),
{
    let s = t.subrange(start, t.len() as int);
    assert(s.len() == (a + b).len());
    assert(t.len() - start == a.len() + b.len());
    assert forall|i: int| 0 <= i < a.len() implies t.subrange(start, start + a.len())[i] == a[i] by {
        assert(s[i] == (a + b)[i]);
        assert(s[i] == t[start + i]);
    }
    assert(t.subrange(start, start + a.len()) =~= a);
    assert forall|i: int| 0 <= i < b.len() implies t.subrange(
        start + a.len(),
        t.len() as int,
    )[i] == b[i] by {
        assert(s[a.len() + i] == (a + b)[a.len() + i]);
        assert(s[a.len() + i] == t[start + a.len() + i]);
    }
    assert(t.subrange(start + a.len(), t.len() as int) =~= b);
}

proof fn lemma_prefixed_at(t: Seq<u8>, start: int, value: Seq<u8>, rest: Seq<u8>)
    requires
        0 <= start <= t.len(),
        value.len() <= u32::MAX,
        t.subrange(start, t.len() as int) == len_prefixed(value) + rest,
    ensures
        prefixed_at(t, start, value),
        t.subrange(start + 4 + value.len(), t.len() as int) == rest,
{
    lemma_u32_field_is_big_endian(value.len() as u32);
    let n = u32_be(value.len() as u32);
    assert(len_prefixed(value) + rest =~= n + (value + rest));
    lemma_parts(t, start, n, value + rest);
    lemma_parts(t, start + 4, value, rest);
}

/// A transcript that is a domain tag, then a length-prefixed value, then
/// the rest.
proof fn lemma_tag_then_prefixed(t: Seq<u8>, tag: Seq<u8>, value: Seq<u8>, rest: Seq<u8>)
    requires
        value.len() <= u32::MAX,
        t == tag + (len_prefixed(value) + rest),
    ensures
        field(t, 0, tag.len() as int) == tag,
        prefixed_at(t, tag.len() as int, value),
        t.subrange(tag.len() + 4 + value.len() as int, t.len() as int) == rest,
{
    assert(t.subrange(0, t.len() as int) =~= t);
    lemma_parts(t, 0, tag, len_prefixed(value) + rest);
    lemma_prefixed_at(t, tag.len() as int, value, rest);
}

/// Self-proof transcript: domain tag, length-prefixed nonce, the 32-byte
/// key, then one byte, the scheme modulo 256.
pub proof fn lemma_self_proof_layout(nonce: Seq<u8>, new_public_key: Seq<u8>, scheme: i32)
    requires
        nonce.len() <= u32::MAX,
        new_public_key.len() == 32,
    ensures
        ({
            let t = self_proof_bytes(nonce, new_public_key, scheme);
            let d = self_proof_domain().len() as int;
            let k = d + 4 + nonce.len();
            &&& t.len() == k + 33
            &&& field(t, 0, d) == self_proof_domain()
            &&& prefixed_at(t, d, nonce)
            &&& field(t, k, 32) == new_public_key
            &&& t[k + 32] as int == scheme % 256
        }),
{
    let t = self_proof_bytes(nonce, new_public_key, scheme);
    let d = self_proof_domain().len() as int;
    let k = d + 4 + nonce.len();
    lemma_tag_then_prefixed(t, self_proof_domain(), nonce, new_public_key + seq![scheme as u8]);
    lemma_parts(t, k, new_public_key, seq![scheme as u8]);
    assert(t[k + 32] == t.subrange(k + 32, t.len() as int)[0]);
    assert(scheme as u8 as int == scheme % 256) by (bit_vector);
}

/// Rename transcript: domain tag, then the nonce, the agent id and the new
/// name, each length-prefixed, the two names as UTF-8.
pub proof fn lemma_rename_layout(nonce: Seq<u8>, agent_id: Seq<char>, new_name: Seq<char>)
    requires
        nonce.len() <= u32::MAX,
        encode_utf8(agent_id).len() <= u32::MAX,
        encode_utf8(new_name).len() <= u32::MAX,
    ensures
        ({
            let t = rename_bytes(nonce, agent_id, new_name);
            let d = rename_domain().len() as int;
            let a = d + 4 + nonce.len();
            let n = a + 4 + encode_utf8(agent_id).len();
            &&& t.len() == n + 4 + encode_utf8(new_name).len()
            &&& field(t, 0, d) == rename_domain()
            &&& prefixed_at(t, d, nonce)
            &&& prefixed_at(t, a, encode_utf8(agent_id))
            &&& prefixed_at(t, n, encode_utf8(new_name))
        }),
{
    let t = rename_bytes(nonce, agent_id, new_name);
    let d = rename_domain().len() as int;
    let a = d + 4 + nonce.len();
    let n = a + 4 + encode_utf8(agent_id).len();
    let id = len_prefixed(encode_utf8(agent_id));
    let name = len_prefixed(encode_utf8(new_name));
    lemma_tag_then_prefixed(t, rename_domain(), nonce, id + name);
    lemma_prefixed_at(t, a, encode_utf8(agent_id), name);
    assert(name =~= name + Seq::<u8>::empty());
    lemma_prefixed_at(t, n, encode_utf8(new_name), Seq::empty());
}

/// Delegation transcript: domain tag, length-prefixed agent id, the 32-byte
/// key, then one byte, the scheme modulo 256.
pub proof fn lemma_delegation_layout(agent_id: Seq<char>, new_public_key: Seq<u8>, scheme: i32)
    requires
        encode_utf8(agent_id).len() <= u32::MAX,
        new_public_key.len() == 32,
    ensures
        ({
            let t = delegation_bytes(agent_id, new_public_key, scheme);
            let d = delegation_domain().len() as int;
            let k = d + 4 + encode_utf8(agent_id).len();
            &&& t.len() == k + 33
            &&& field(t, 0, d) == delegation_domain()
            &&& prefixed_at(t, d, encode_utf8(agent_id))
            &&& field(t, k, 32) == new_public_key
            &&& t[k + 32] as int == scheme % 256
        }),
{
    let t = delegation_bytes(agent_id, new_public_key, scheme);
    let d = delegation_domain().len() as int;
    let k = d + 4 + encode_utf8(agent_id).len();
    lemma_tag_then_prefixed(
        t,
        delegation_domain(),
        encode_utf8(agent_id),
        new_public_key + seq![scheme as u8],
    );
    lemma_parts(t, k, new_public_key, seq![scheme as u8]);
    assert(t[k + 32] == t.subrange(k + 32, t.len() as int)[0]);
    assert(scheme as u8 as int == scheme % 256) by (bit_vector);
}

/// Revocation transcript: domain tag, length-prefixed agent id, then the
/// 32-byte key being revoked.
pub proof fn lemma_revocation_layout(agent_id: Seq<char>, public_key: Seq<u8>)
    requires
        encode_utf8(agent_id).len() <= u32::MAX,
        public_key.len() == 32,
    ensures
        ({
            let t = revocation_bytes(agent_id, public_key);
            let d = revocation_domain().len() as int;
            let k = d + 4 + encode_utf8(agent_id).len();
            &&& t.len() == k + 32
            &&& field(t, 0, d) == revocation_domain()
            &&& prefixed_at(t, d, encode_utf8(agent_id))
            &&& field(t, k, 32) == public_key
        }),
{
    let t = revocation_bytes(agent_id, public_key);
    let k = revocation_domain().len() + 4 + encode_utf8(agent_id).len() as int;
    lemma_tag_then_prefixed(t, revocation_domain(), encode_utf8(agent_id), public_key);
    assert(public_key =~= public_key + Seq::<u8>::empty());
    lemma_parts(t, k, public_key, Seq::empty());
}

/// Rotation transcript: domain tag, length-prefixed agent id, then the new
/// root's 32-byte key.
pub proof fn lemma_rotation_layout(agent_id: Seq<char>, new_root_public_key: Seq<u8>)
    requires
        encode_utf8(agent_id).len() <= u32::MAX,
        new_root_public_key.len() == 32,
    ensures
        ({
            let t = rotation_bytes(agent_id, new_root_public_key);
            let d = rotation_domain().len() as int;
            let k = d + 4 + encode_utf8(agent_id).len();
            &&& t.len() == k + 32
            &&& field(t, 0, d) == rotation_domain()
            &&& prefixed_at(t, d, encode_utf8(agent_id))
            &&& field(t, k, 32) == new_root_public_key
        }),
{
    let t = rotation_bytes(agent_id, new_root_public_key);
    let k = rotation_domain().len() + 4 + encode_utf8(agent_id).len() as int;
    lemma_tag_then_prefixed(t, rotation_domain(), encode_utf8(agent_id), new_root_public_key);
    assert(new_root_public_key =~= new_root_public_key + Seq::<u8>::empty());
    lemma_parts(t, k, new_root_public_key, Seq::empty());
}

/// Session-delegation transcript: domain tag, length-prefixed agent id,
/// the 32-byte device key, then the 32-byte session key, then the two
/// window bounds as 8-byte big-endian two's-complement numbers.
pub proof fn lemma_session_delegation_layout(
    agent_id: Seq<char>,
    device_public_key: Seq<u8>,
    session_public_key: Seq<u8>,
    not_before: i64,
    not_after: i64,
)
    requires
        encode_utf8(agent_id).len() <= u32::MAX,
        device_public_key.len() == 32,
        session_public_key.len() == 32,
    ensures
        ({
            let t = session_delegation_bytes(
                agent_id,
                device_public_key,
                session_public_key,
                not_before,
                not_after,
            );
            let d = session_delegation_domain().len() as int;
            let k = d + 4 + encode_utf8(agent_id).len();
            &&& t.len() == k + 80
            &&& field(t, 0, d) == session_delegation_domain()
            &&& prefixed_at(t, d, encode_utf8(agent_id))
            &&& field(t, k, 32) == device_public_key
            &&& field(t, k + 32, 32) == session_public_key
            &&& be_value(field(t, k + 64, 8)) == bits64(not_before)
            &&& be_value(field(t, k + 72, 8)) == bits64(not_after)
        }),
{
    let t = session_delegation_bytes(
        agent_id,
        device_public_key,
        session_public_key,
        not_before,
        not_after,
    );
    let k = session_delegation_domain().len() + 4 + encode_utf8(agent_id).len() as int;
    let w = i64_be(not_before) + i64_be(not_after);
    lemma_i64_field_is_big_endian(not_before);
    lemma_i64_field_is_big_endian(not_after);
    lemma_tag_then_prefixed(
        t,
        session_delegation_domain(),
        encode_utf8(agent_id),
        device_public_key + (session_public_key + w),
    );
    lemma_parts(t, k, device_public_key, session_public_key + w);
    lemma_parts(t, k + 32, session_public_key, w);
    lemma_parts(t, k + 64, i64_be(not_before), i64_be(not_after));
    assert(i64_be(not_after) =~= i64_be(not_after) + Seq::<u8>::empty());
    lemma_parts(t, k + 72, i64_be(not_after), Seq::empty());
}


/// Delivery-attestation transcript: domain tag, the recipient count as a
/// 4-byte big-endian number, the recipient keys, the length-prefixed key
/// id, the batch sequence (8 bytes), the attestation time's seconds
/// (8 bytes) and nanoseconds (4 bytes), all big-endian, then the messages
/// to the end.
#[verifier::spinoff_prover]
#[verifier::rlimit(50)]
pub proof fn lemma_delivery_attestation_layout(a: AttestationContent)
    requires
        a.recipient_device_public_keys.len() <= u32::MAX,
        encode_utf8(a.key_id).len() <= u32::MAX,
    ensures
        ({
            let t = delivery_attestation_bytes(a);
            let d = delivery_attestation_domain().len() as int;
            let keys = keys_bytes(a.recipient_device_public_keys);
            let k = d + 4 + keys.len();
            let h = k + 4 + encode_utf8(a.key_id).len();
            &&& field(t, 0, d) == delivery_attestation_domain()
            &&& be_value(field(t, d, 4)) == a.recipient_device_public_keys.len()
            &&& field(t, d + 4, keys.len() as int) == keys
            &&& prefixed_at(t, k, encode_utf8(a.key_id))
            &&& be_value(field(t, h, 8)) == a.batch_sequence
            &&& be_value(field(t, h + 8, 8)) == bits64(a.attested_at_seconds)
            &&& be_value(field(t, h + 16, 4)) == bits32(a.attested_at_nanos)
            &&& t.subrange(h + 20, t.len() as int) == messages_bytes(a.messages)
        }),
{
    let t = delivery_attestation_bytes(a);
    let d = delivery_attestation_domain().len() as int;
    let n = a.recipient_device_public_keys.len();
    let keys = keys_bytes(a.recipient_device_public_keys);
    let k = d + 4 + keys.len();
    let h = k + 4 + encode_utf8(a.key_id).len();
    let ms = messages_bytes(a.messages);
    let tail = u64_be(a.batch_sequence) + (i64_be(a.attested_at_seconds) + (i32_be(
        a.attested_at_nanos,
    ) + ms));
    let after_keys = len_prefixed(encode_utf8(a.key_id)) + tail;
    lemma_u32_field_is_big_endian(n as u32);
    lemma_u64_field_is_big_endian(a.batch_sequence);
    lemma_i64_field_is_big_endian(a.attested_at_seconds);
    lemma_i32_field_is_big_endian(a.attested_at_nanos);
    assert(t.subrange(0, t.len() as int) =~= t);
    lemma_parts(t, 0, delivery_attestation_domain(), u32_be(n as u32) + (keys + after_keys));
    lemma_parts(t, d, u32_be(n as u32), keys + after_keys);
    lemma_parts(t, d + 4, keys, after_keys);
    lemma_prefixed_at(t, k, encode_utf8(a.key_id), tail);
    lemma_parts(t, h, u64_be(a.batch_sequence), i64_be(a.attested_at_seconds) + (i32_be(
        a.attested_at_nanos,
    ) + ms));
    lemma_parts(t, h + 8, i64_be(a.attested_at_seconds), i32_be(a.attested_at_nanos) + ms);
    lemma_parts(t, h + 16, i32_be(a.attested_at_nanos), ms);
}

/// The recipient keys: none at all for an empty list; otherwise the first
/// key, length-prefixed, then the others the same way.
pub proof fn lemma_recipient_keys_layout(keys: Seq<Seq<u8>>)
    requires
        keys.len() > 0 ==> keys[0].len() <= u32::MAX,
    ensures
        keys.len() == 0 ==> keys_bytes(keys).len() == 0,
        keys.len() > 0 ==> {
            let t = keys_bytes(keys);
            &&& prefixed_at(t, 0, keys[0])
            &&& t.subrange(4 + keys[0].len() as int, t.len() as int) == keys_bytes(keys.drop_first())
        },
{
    if keys.len() > 0 {
        let t = keys_bytes(keys);
        assert(t.subrange(0, t.len() as int) =~= t);
        lemma_prefixed_at(t, 0, keys[0], keys_bytes(keys.drop_first()));
    }
}

/// An optional delegation certificate: the single byte 0 when absent;
/// when present, the byte 1, the length-prefixed agent id, device key and
/// session key, then the two window bounds as 8-byte big-endian
/// two's-complement numbers.
pub proof fn lemma_cert_layout(cert: Option<CertContent>)
    requires
        cert matches Some(c) ==> encode_utf8(c.agent_id).len() <= u32::MAX
            && c.device_public_key.len() <= u32::MAX && c.session_public_key.len() <= u32::MAX,
    ensures
        cert is None ==> cert_bytes(cert) == seq![0u8],
        cert matches Some(c) ==> {
            let t = cert_bytes(cert);
            let q1 = 5 + encode_utf8(c.agent_id).len() as int;
            let q2 = q1 + 4 + c.device_public_key.len();
            let q3 = q2 + 4 + c.session_public_key.len();
            &&& t[0] == 1
            &&& prefixed_at(t, 1, encode_utf8(c.agent_id))
            &&& prefixed_at(t, q1, c.device_public_key)
            &&& prefixed_at(t, q2, c.session_public_key)
            &&& be_value(field(t, q3, 8)) == bits64(c.not_before)
            &&& be_value(field(t, q3 + 8, 8)) == bits64(c.not_after)
            &&& t.len() == q3 + 16
        },
{
    if let Some(c) = cert {
        let t = cert_bytes(cert);
        let q1 = 5 + encode_utf8(c.agent_id).len() as int;
        let q2 = q1 + 4 + c.device_public_key.len();
        let q3 = q2 + 4 + c.session_public_key.len();
        let w = i64_be(c.not_before) + i64_be(c.not_after);
        let s = len_prefixed(c.session_public_key) + w;
        let dv = len_prefixed(c.device_public_key) + s;
        lemma_i64_field_is_big_endian(c.not_before);
        lemma_i64_field_is_big_endian(c.not_after);
        assert(t.subrange(0, t.len() as int) =~= t);
        lemma_parts(t, 0, seq![1u8], len_prefixed(encode_utf8(c.agent_id)) + dv);
        assert(t[0] == field(t, 0, 1)[0]);
        lemma_prefixed_at(t, 1, encode_utf8(c.agent_id), dv);
        lemma_prefixed_at(t, q1, c.device_public_key, s);
        lemma_prefixed_at(t, q2, c.session_public_key, w);
        lemma_parts(t, q3, i64_be(c.not_before), i64_be(c.not_after));
        assert(i64_be(c.not_after) =~= i64_be(c.not_after) + Seq::<u8>::empty());
        lemma_parts(t, q3 + 8, i64_be(c.not_after), Seq::empty());
    }
}

/// One attested message: its id, room, author and body, each as UTF-8 and
/// length-prefixed, then the verification outcome as a 4-byte big-endian
/// two's-complement number (never truncated), then the certificate.
pub proof fn lemma_message_layout(m: MessageContent)
    requires
        encode_utf8(m.message_id).len() <= u32::MAX,
        encode_utf8(m.room_id).len() <= u32::MAX,
        encode_utf8(m.author_agent_id).len() <= u32::MAX,
        encode_utf8(m.body_text).len() <= u32::MAX,
    ensures
        ({
            let t = message_bytes(m);
            let p1 = 4 + encode_utf8(m.message_id).len() as int;
            let p2 = p1 + 4 + encode_utf8(m.room_id).len();
            let p3 = p2 + 4 + encode_utf8(m.author_agent_id).len();
            let p4 = p3 + 4 + encode_utf8(m.body_text).len();
            &&& prefixed_at(t, 0, encode_utf8(m.message_id))
            &&& prefixed_at(t, p1, encode_utf8(m.room_id))
            &&& prefixed_at(t, p2, encode_utf8(m.author_agent_id))
            &&& prefixed_at(t, p3, encode_utf8(m.body_text))
            &&& be_value(field(t, p4, 4)) == bits32(m.verification_outcome)
            &&& t.subrange(p4 + 4, t.len() as int) == cert_bytes(m.delegation_cert)
        }),
{
    reveal(message_bytes);
    let t = message_bytes(m);
    let p1 = 4 + encode_utf8(m.message_id).len() as int;
    let p2 = p1 + 4 + encode_utf8(m.room_id).len();
    let p3 = p2 + 4 + encode_utf8(m.author_agent_id).len();
    let p4 = p3 + 4 + encode_utf8(m.body_text).len();
    let c = cert_bytes(m.delegation_cert);
    let o = i32_be(m.verification_outcome) + c;
    let b = len_prefixed(encode_utf8(m.body_text)) + o;
    let au = len_prefixed(encode_utf8(m.author_agent_id)) + b;
    let r = len_prefixed(encode_utf8(m.room_id)) + au;
    lemma_i32_field_is_big_endian(m.verification_outcome);
    assert(t.subrange(0, t.len() as int) =~= t);
    lemma_prefixed_at(t, 0, encode_utf8(m.message_id), r);
    lemma_prefixed_at(t, p1, encode_utf8(m.room_id), au);
    lemma_prefixed_at(t, p2, encode_utf8(m.author_agent_id), b);
    lemma_prefixed_at(t, p3, encode_utf8(m.body_text), o);
    lemma_parts(t, p4, i32_be(m.verification_outcome), c);
}

/// The messages, in order: nothing for none; otherwise the first message's
/// encoding, then the others'.
pub proof fn lemma_messages_layout(messages: Seq<MessageContent>)
    ensures
        messages.len() == 0 ==> messages_bytes(messages).len() == 0,
        messages.len() > 0 ==> {
            let t = messages_bytes(messages);
            let first = message_bytes(messages[0]);
            &&& field(t, 0, first.len() as int) == first
            &&& t.subrange(first.len() as int, t.len() as int) == messages_bytes(
                messages.drop_first(),
            )
        },
{
    if messages.len() > 0 {
        let t = messages_bytes(messages);
        assert(t.subrange(0, t.len() as int) =~= t);
        lemma_parts(t, 0, message_bytes(messages[0]), messages_bytes(messages.drop_first()));
    }
}

} // verus!
