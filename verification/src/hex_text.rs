//! Hex text as the `hex` crate reads and writes it.

use vstd::prelude::*;
use vstd::utf8::{encode_scalar, encode_utf8};

use hex::FromHexError;

verus! {

#[verifier::external_type_specification]
#[verifier::external_body]
pub struct ExFromHexError(FromHexError);

/// The value of one hex digit, upper or lower case.
pub open spec fn hex_digit_value(c: u8) -> Option<u8> {
    if 48 <= c <= 57 {
        Some((c - 48) as u8)
    } else if 97 <= c <= 102 {
        Some((c - 87) as u8)
    } else if 65 <= c <= 70 {
        Some((c - 55) as u8)
    } else {
        None
    }
}

/// The bytes a hex text spells: two digits per byte, high digit first;
/// `None` for an odd length or any other character.
pub open spec fn hex_decoded(text: Seq<u8>) -> Option<Seq<u8>>
    decreases text.len(),
{
    if text.len() % 2 != 0 {
        None
    } else if text.len() == 0 {
        Some(Seq::empty())
    } else {
        match (
            hex_digit_value(text[0]),
            hex_digit_value(text[1]),
            hex_decoded(text.subrange(2, text.len() as int)),
        ) {
            (Some(high), Some(low), Some(rest)) => Some(seq![(high * 16 + low) as u8] + rest),
            _ => None,
        }
    }
}

/// The lower-case hex digit for a value below 16.
pub open spec fn lower_hex_digit(n: u8) -> char {
    if n < 10 {
        (n + 48) as char
    } else {
        (n + 87) as char
    }
}

/// Lower-case hex text of some bytes, two digits per byte.
pub open spec fn lower_hex(bytes: Seq<u8>) -> Seq<char>
    decreases bytes.len(),
{
    if bytes.len() == 0 {
        Seq::empty()
    } else {
        seq![lower_hex_digit(bytes[0] / 16), lower_hex_digit(bytes[0] % 16)] + lower_hex(
            bytes.drop_first(),
        )
    }
}

/// `hex::decode`: accepts exactly the texts of even length made of hex
/// digits of either case, and returns the bytes they spell.
#[verifier::external_body]
pub(crate) fn hex_decode(text: &[u8]) -> (r: Result<Vec<u8>, FromHexError>)
    ensures
        match r {
            Ok(bytes) => hex_decoded(text@) == Some(bytes@),
            Err(_) => hex_decoded(text@) is None,
        },
{
    hex::decode(text)
}

/// `hex::encode`: lower-case hex text, two digits per byte.
#[verifier::external_body]
pub(crate) fn hex_encode(bytes: &[u8]) -> (r: String)
    ensures
        r@ == lower_hex(bytes@),
{
    hex::encode(bytes)
}


proof fn lemma_lower_hex_digit(n: u8)
    requires
        n < 16,
    ensures
        (lower_hex_digit(n) as u32) < 128,
        encode_scalar(lower_hex_digit(n) as u32) == seq![lower_hex_digit(n) as u8],
        hex_digit_value(lower_hex_digit(n) as u8) == Some(n),
{
    let v = lower_hex_digit(n) as u32;
    assert(v == n + 48 || v == n + 87);
    assert((v & 0x7Fu32) as u8 == v as u8) by (bit_vector)
        requires
            v < 128,
    ;
}

/// Decoding what `hex::encode` wrote gives back the bytes it encoded.
pub proof fn lemma_hex_round_trip(bytes: Seq<u8>)
    ensures
        hex_decoded(encode_utf8(lower_hex(bytes))) == Some(bytes),
    decreases bytes.len(),
{
    if bytes.len() == 0 {
        assert(encode_utf8(lower_hex(bytes)) =~= Seq::<u8>::empty());
    } else {
        let high = bytes[0] / 16;
        let low = bytes[0] % 16;
        let c1 = lower_hex_digit(high);
        let c2 = lower_hex_digit(low);
        let rest = lower_hex(bytes.drop_first());
        let chars = lower_hex(bytes);
        lemma_lower_hex_digit(high);
        lemma_lower_hex_digit(low);
        assert(chars == seq![c1, c2] + rest);
        assert(chars.drop_first() =~= seq![c2] + rest);
        assert((seq![c2] + rest).drop_first() =~= rest);
        assert(encode_utf8(seq![c2] + rest) == encode_scalar(c2 as u32) + encode_utf8(rest));
        assert(encode_utf8(chars) == encode_scalar(c1 as u32) + encode_utf8(chars.drop_first()));
        let tail = encode_utf8(rest);
        let text = encode_utf8(chars);
        assert(text =~= seq![c1 as u8, c2 as u8] + tail);
        lemma_hex_round_trip(bytes.drop_first());
        assert(text.subrange(2, text.len() as int) =~= tail);
        assert(((high * 16 + low) as u8) == bytes[0]);
        assert(hex_decoded(text) == Some(seq![bytes[0]] + bytes.drop_first()));
        assert(seq![bytes[0]] + bytes.drop_first() =~= bytes);
    }
}

} // verus!
