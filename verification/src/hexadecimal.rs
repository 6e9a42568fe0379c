//! Bytes as hexadecimal text.

use vstd::prelude::*;

verus! {

/// The number that a hexadecimal digit, in ASCII, stands for.
pub open spec fn hex_value(c: u8) -> Option<u8> {
    if 0x30 <= c <= 0x39 {
        Some((c - 0x30) as u8)
    } else if 0x41 <= c <= 0x46 {
        Some((c - 0x41 + 10) as u8)
    } else if 0x61 <= c <= 0x66 {
        Some((c - 0x61 + 10) as u8)
    } else {
        None
    }
}

/// The lower-case digit, in ASCII, for a number below sixteen.
pub open spec fn hex_digit(n: u8) -> u8 {
    if n < 10 {
        (0x30 + n) as u8
    } else {
        (0x61 + n - 10) as u8
    }
}

/// The byte that two digits spell.
pub open spec fn hex_byte(text: Seq<u8>, i: int) -> u8 {
    (hex_value(text[2 * i]).unwrap() * 16 + hex_value(text[2 * i + 1]).unwrap()) as u8
}

/// The bytes that pairs of digits spell.
pub open spec fn hex_bytes(text: Seq<u8>) -> Option<Seq<u8>> {
    if text.len() % 2 == 0 && forall|i: int|
        0 <= i < text.len() ==> hex_value(#[trigger] text[i]) is Some {
        Some(Seq::new((text.len() / 2) as nat, |i: int| hex_byte(text, i)))
    } else {
        None
    }
}

/// Two lower-case digits for each byte.
pub open spec fn hex_digits(bytes: Seq<u8>) -> Seq<u8> {
    Seq::new(
        2 * bytes.len(),
        |i: int|
            if i % 2 == 0 {
                hex_digit((bytes[i / 2] / 16) as u8)
            } else {
                hex_digit((bytes[i / 2] % 16) as u8)
            },
    )
}

/// Calls `hex::decode`.
/// Trusted: pairs of digits, in upper or lower case, spell the bytes; anything else is no
/// hexadecimal text.
#[verifier::external_body]
pub(crate) fn decode_hex(text: &[u8]) -> (bytes: Option<Vec<u8>>)
    ensures
        match bytes {
            Some(b) => hex_bytes(text@) == Some(b@),
            None => hex_bytes(text@) is None,
        },
{
    hex::decode(text).ok()
}

/// Calls `hex::encode`.
/// Trusted: the text has two lower-case digits for each byte.
#[verifier::external_body]
pub(crate) fn encode_hex(bytes: &[u8]) -> (text: String)
    ensures
        text@ == hex_digits(bytes@).map_values(|c: u8| c as char),
{
    hex::encode(bytes)
}

/// Bytes that were written as hexadecimal text read back.
pub proof fn law_hex_round_trip(bytes: Seq<u8>)
    ensures
        hex_bytes(hex_digits(bytes)) == Some(bytes),
{
    let text = hex_digits(bytes);
    assert forall|i: int| 0 <= i < text.len() implies hex_value(#[trigger] text[i]) is Some by {
    }
    assert forall|i: int| 0 <= i < bytes.len() implies hex_byte(text, i) == bytes[i] by {
        assert((2 * i) / 2 == i && (2 * i) % 2 == 0);
        assert((2 * i + 1) / 2 == i && (2 * i + 1) % 2 == 1);
        let high = (bytes[i] / 16) as u8;
        let low = (bytes[i] % 16) as u8;
        assert(hex_value(hex_digit(high)) == Some(high));
        assert(hex_value(hex_digit(low)) == Some(low));
    }
    assert(hex_bytes(text).unwrap() =~= bytes);
}

/// Every pair of digits spells a byte, the first of the pair its upper half, in upper case or in
/// lower; a text of odd length and one with anything but digits spell nothing.
pub proof fn law_pairs_of_digits_spell_bytes(text: Seq<u8>, i: int)
    ensures
        text.len() % 2 == 1 ==> hex_bytes(text) is None,
        0 <= i < text.len() && hex_value(text[i]) is None ==> hex_bytes(text) is None,
        hex_bytes(text) matches Some(bytes) ==> bytes.len() == text.len() / 2,
        hex_bytes(text) matches Some(bytes) ==> 0 <= i < bytes.len() ==> bytes[i] == hex_value(
            text[2 * i],
        )->Some_0 * 16 + hex_value(text[2 * i + 1])->Some_0,
        text.len() % 2 == 0 && (forall|j: int|
            0 <= j < text.len() ==> hex_value(#[trigger] text[j]) is Some) ==> hex_bytes(
            text,
        ) is Some,
{
    if hex_bytes(text) is Some && 0 <= i < text.len() / 2 {
        assert(hex_value(text[2 * i]) is Some && hex_value(text[2 * i + 1]) is Some);
    }
}

/// The values of the digits.
pub proof fn law_values_of_digits(c: u8, n: u8)
    ensures
        n < 10 && c == 48 + n ==> hex_value(c) == Some(n),
        10 <= n < 16 && (c == 55 + n || c == 87 + n) ==> hex_value(c) == Some(n),
        hex_value(c) matches Some(v) ==> v < 16 && (c == 48 + v || (v >= 10 && (c == 55 + v || c
            == 87 + v))),
{
}

} // verus!
