//! Hexadecimal rendering and tolerant decoding of byte sequences.

use vstd::prelude::*;

verus! {

/// The sixteen lowercase hexadecimal digits, in value order.
pub open spec fn hex_digits() -> Seq<char> {
    seq!['0', '1', '2', '3', '4', '5', '6', '7', '8', '9', 'a', 'b', 'c', 'd', 'e', 'f']
}

/// The lowercase hexadecimal digit for a nibble value.
pub open spec fn hex_digit(n: u8) -> char
    recommends
        n < 16,
{
    hex_digits()[n as int]
}

/// Whether `c` is a hexadecimal digit, in either case.
pub open spec fn is_hex_digit(c: char) -> bool {
    (48 <= c as u32 && c as u32 <= 57)  // '0' ..= '9'
    || (97 <= c as u32 && c as u32 <= 102)  // 'a' ..= 'f'
    || (65 <= c as u32 && c as u32 <= 70)  // 'A' ..= 'F'
}

/// The nibble value a hexadecimal digit denotes.
pub open spec fn hex_char_value(c: char) -> u8
    recommends
        is_hex_digit(c),
{
    if 48 <= c as u32 && c as u32 <= 57 {
        (c as u32 - 48) as u8
    } else if 97 <= c as u32 && c as u32 <= 102 {
        (c as u32 - 97 + 10) as u8
    } else if 65 <= c as u32 && c as u32 <= 70 {
        (c as u32 - 65 + 10) as u8
    } else {
        0
    }
}

/// Whether `s` is a well-formed hex string: even length, hex digits only.
pub open spec fn valid_hex(s: Seq<char>) -> bool {
    s.len() % 2 == 0 && (forall|i: int| 0 <= i < s.len() ==> is_hex_digit(#[trigger] s[i]))
}

/// The lowercase hex rendering of a byte sequence: two digits for each byte,
/// high nibble first.
pub open spec fn hex_encode_spec(b: Seq<u8>) -> Seq<char> {
    Seq::new(
        b.len() * 2,
        |i: int|
            if i % 2 == 0 {
                hex_digit(b[i / 2] >> 4u8)
            } else {
                hex_digit(b[i / 2] & 0xfu8)
            },
    )
}

/// The byte sequence a well-formed hex string denotes.
pub open spec fn hex_decode_spec(s: Seq<char>) -> Seq<u8>
    recommends
        valid_hex(s),
{
    Seq::new(
        s.len() / 2,
        |i: int| (hex_char_value(s[2 * i]) * 16 + hex_char_value(s[2 * i + 1])) as u8,
    )
}

/// Tolerant decoding: a malformed hex string falls back to the empty byte
/// sequence rather than to an error.
pub open spec fn hex_decode_or_empty(s: Seq<char>) -> Seq<u8> {
    if valid_hex(s) {
        hex_decode_spec(s)
    } else {
        Seq::<u8>::empty()
    }
}

/// Every nibble renders as a hexadecimal digit.
pub proof fn lemma_hex_digit_is_digit(n: u8)
    requires
        n < 16,
    ensures
        is_hex_digit(hex_digit(n)),
{
    if n == 0 {
    } else if n == 1 {
    } else if n == 2 {
    } else if n == 3 {
    } else if n == 4 {
    } else if n == 5 {
    } else if n == 6 {
    } else if n == 7 {
    } else if n == 8 {
    } else if n == 9 {
    } else if n == 10 {
    } else if n == 11 {
    } else if n == 12 {
    } else if n == 13 {
    } else if n == 14 {
    } else {
        assert(n == 15);
    }
}

/// The hex rendering of a byte sequence is a well-formed hex string of twice
/// the byte length.
pub proof fn lemma_hex_encode_valid(b: Seq<u8>)
    ensures
        hex_encode_spec(b).len() == 2 * b.len(),
        valid_hex(hex_encode_spec(b)),
{
    assert forall|i: int| 0 <= i < hex_encode_spec(b).len() implies is_hex_digit(
        #[trigger] hex_encode_spec(b)[i],
    ) by {
        let byte = b[i / 2];
        assert((byte >> 4u8) < 16 && (byte & 0xfu8) < 16) by (bit_vector);
        if i % 2 == 0 {
            lemma_hex_digit_is_digit(byte >> 4u8);
        } else {
            lemma_hex_digit_is_digit(byte & 0xfu8);
        }
    }
}

/// Relies on hex::encode: the lowercase hex rendering of the input bytes, two
/// digits for each byte.
#[verifier::external_body]
pub(crate) fn hex_encode(data: &[u8]) -> (r: String)
    ensures
        r@ == hex_encode_spec(data@),
{
    hex::encode(data)
}

/// Relies on hex::decode: returns the denoted bytes exactly when the input has
/// even length and holds only hexadecimal digits of either case, and an error
/// otherwise.
#[verifier::external_body]
pub(crate) fn hex_decode(s: &str) -> (r: Option<Vec<u8>>)
    ensures
        r is Some <==> valid_hex(s@),
        r matches Some(b) ==> b@ == hex_decode_spec(s@),
{
    hex::decode(s).ok()
}

} // verus!
