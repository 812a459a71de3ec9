//! The cryptographic hash primitive and the struct hasher built on it.

use vstd::prelude::*;
use sha3::Digest;
use crate::hexutil::{
    hex_encode_spec, hex_decode_or_empty, hex_encode, hex_decode, valid_hex,
    lemma_hex_encode_valid,
};

verus! {

/// Names the Keccak-256 digest of a byte sequence; the digest is a function
/// of the input bytes alone.
pub uninterp spec fn keccak256_of(bytes: Seq<u8>) -> Seq<u8>;

/// `keccak256_of`, pinned to its documented width: a Keccak-256 digest is
/// exactly 32 bytes, so the two functions agree on every digest the wrapper
/// actually returns.
pub open spec fn keccak256_digest(bytes: Seq<u8>) -> Seq<u8> {
    Seq::new(
        32,
        |i: int|
            if i < keccak256_of(bytes).len() {
                keccak256_of(bytes)[i]
            } else {
                0
            },
    )
}

/// Relies on sha3::Keccak256: a 32-byte digest that depends on the input
/// bytes alone.
#[verifier::external_body]
fn keccak256_raw(data: &[u8]) -> (r: Vec<u8>)
    ensures
        r@ == keccak256_of(data@),
        r@.len() == 32,
{
    sha3::Keccak256::digest(data).to_vec()
}

/// The Keccak-256 digest of `data`, as 32 bytes.
pub(crate) fn keccak256(data: &[u8]) -> (r: Vec<u8>)
    ensures
        r@ == keccak256_digest(data@),
        r@.len() == 32,
{
    let r = keccak256_raw(data);
    proof {
        assert(r@ =~= keccak256_digest(data@));
    }
    r
}

/// The struct hash of a type signature and already-encoded field data:
/// the hex rendering of
/// `keccak256( keccak256(utf-8 bytes of the signature) || data bytes )`,
/// where the data bytes come from tolerantly decoding the hex rendering of
/// the inner digest concatenated with the encoded data.
pub open spec fn hash_struct_spec(type_sig: Seq<char>, encoded_data: Seq<char>) -> Seq<char> {
    hex_encode_spec(
        keccak256_digest(
            hex_decode_or_empty(
                hex_encode_spec(keccak256_digest(vstd::utf8::encode_utf8(type_sig)))
                    + encoded_data,
            ),
        ),
    )
}

/// A struct hash is a well-formed hex string of 64 digits.
pub proof fn lemma_hash_struct_spec_len(type_sig: Seq<char>, encoded_data: Seq<char>)
    ensures
        hash_struct_spec(type_sig, encoded_data).len() == 64,
        valid_hex(hash_struct_spec(type_sig, encoded_data)),
{
    let inner = hex_decode_or_empty(
        hex_encode_spec(keccak256_digest(vstd::utf8::encode_utf8(type_sig))) + encoded_data,
    );
    lemma_hex_encode_valid(keccak256_digest(inner));
}

/// Combines a type signature and encoded field data into a struct hash.
///
/// The type signature is hashed over its UTF-8 bytes; the 32-byte result is
/// rendered as hex, the encoded data is appended, and the whole is decoded
/// back to bytes and hashed again. A malformed encoded-data string makes the
/// decoding fall back to the empty byte sequence, never to an error.
pub fn hash_struct(type_sig: &str, encoded_data: &str) -> (r: String)
    ensures
        r@ == hash_struct_spec(type_sig@, encoded_data@),
        r@.len() == 64,
{
    let type_hash = keccak256(type_sig.as_bytes());
    let mut combined = hex_encode(type_hash.as_slice());
    combined.append(encoded_data);
    let combined_bytes: Vec<u8> = match hex_decode(combined.as_str()) {
        Some(b) => b,
        None => Vec::new(),
    };
    let hash = keccak256(combined_bytes.as_slice());
    let r = hex_encode(hash.as_slice());
    proof {
        lemma_hash_struct_spec_len(type_sig@, encoded_data@);
    }
    r
}

} // verus!
