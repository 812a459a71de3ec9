//! Laws of the encoders: determinism, the encoded-length invariant, and the
//! tolerant treatment of absent fields.

use vstd::prelude::*;
use crate::hexutil::{valid_hex, is_hex_digit, lemma_hex_encode_valid};
use crate::hashing::{keccak256_digest, lemma_hash_struct_spec_len};
use crate::registry::{SchemaEntry, lookup_entries};
use crate::encoder::{
    encode_type_spec, encode_data_spec, encode_fields, field_slot, string_slot, address_slot,
    uint256_slot, strip_0x, u256_be_bytes,
};
use crate::digest::final_digest_spec;
use crate::value::Value;

verus! {

/// Determinism: the canonical type signature is a function of the registry
/// and the schema name alone, so two signatures computed from the same
/// inputs agree.
pub proof fn lemma_encode_type_deterministic(
    entries: Seq<SchemaEntry>,
    name: Seq<char>,
    r1: Seq<char>,
    r2: Seq<char>,
)
    requires
        r1 == encode_type_spec(entries, name),
        r2 == encode_type_spec(entries, name),
    ensures
        r1 == r2,
{
}

/// Determinism: the encoded data is a function of the registry, the value
/// tree and the schema name alone, so two encodings computed from the same
/// inputs agree.
pub proof fn lemma_encode_data_deterministic(
    entries: Seq<SchemaEntry>,
    v: Value,
    name: Seq<char>,
    r1: Seq<char>,
    r2: Seq<char>,
)
    requires
        r1 == encode_data_spec(entries, v, name),
        r2 == encode_data_spec(entries, v, name),
    ensures
        r1 == r2,
{
}

/// Determinism: the final digest is a function of the registry, the two
/// schema names and the two value trees alone, so two digests computed from
/// the same inputs agree. No randomness and no input/output take part.
pub proof fn lemma_final_digest_deterministic(
    entries: Seq<SchemaEntry>,
    domain_schema: Seq<char>,
    domain_value: Value,
    message_schema: Seq<char>,
    message_value: Value,
    r1: Seq<char>,
    r2: Seq<char>,
)
    requires
        r1 == final_digest_spec(entries, domain_schema, domain_value, message_schema,
        message_value),
        r2 == final_digest_spec(entries, domain_schema, domain_value, message_schema,
        message_value),
    ensures
        r1 == r2,
{
}

/// Whether an address value is well formed: after the optional `0x` prefix,
/// at most 64 characters, all hexadecimal digits.
pub open spec fn address_well_formed(s: Seq<char>) -> bool {
    strip_0x(s).len() <= 64 && (forall|i: int|
        0 <= i < strip_0x(s).len() ==> is_hex_digit(#[trigger] strip_0x(s)[i]))
}

/// Whether the value supplies the field `f` in an encodable form: present,
/// and shaped as the declared field type asks.
pub open spec fn field_encodable(
    entries: Seq<SchemaEntry>,
    v: Value,
    f: (Seq<char>, Seq<char>),
) -> bool {
    match v.get_spec(f.1) {
        None => false,
        Some(sub) => {
            if f.0 == "string"@ {
                sub is Str
            } else if f.0 == "address"@ {
                sub matches Value::Str(s) && address_well_formed(s@)
            } else if f.0 == "uint256"@ {
                sub is Uint
            } else {
                lookup_entries(entries, f.0) is Some
            }
        },
    }
}

/// The concatenation of two well-formed hex strings is well formed.
proof fn lemma_valid_hex_concat(a: Seq<char>, b: Seq<char>)
    requires
        valid_hex(a),
        valid_hex(b),
    ensures
        valid_hex(a + b),
{
    assert forall|i: int| 0 <= i < (a + b).len() implies is_hex_digit(#[trigger] (a + b)[i]) by {
        if i < a.len() {
            assert((a + b)[i] == a[i]);
        } else {
            assert((a + b)[i] == b[i - a.len()]);
        }
    }
}

/// An encodable field contributes exactly one well-formed 64-digit slot.
proof fn lemma_field_slot_len(entries: Seq<SchemaEntry>, v: Value, f: (Seq<char>, Seq<char>))
    requires
        field_encodable(entries, v, f),
    ensures
        field_slot(entries, v, f).len() == 64,
        valid_hex(field_slot(entries, v, f)),
{
    let sub = v.get_spec(f.1).unwrap();
    if f.0 == "string"@ {
        let s = sub->Str_0;
        lemma_hex_encode_valid(keccak256_digest(vstd::utf8::encode_utf8(s@)));
    } else if f.0 == "address"@ {
        let s = sub->Str_0;
        let t = strip_0x(s@);
        let slot = address_slot(s@);
        assert(slot.len() == 64);
        assert forall|i: int| 0 <= i < slot.len() implies is_hex_digit(#[trigger] slot[i]) by {
            if t.len() >= 64 {
                assert(slot[i] == t[i]);
            } else if i < 64 - t.len() {
                assert(slot[i] == '0');
            } else {
                assert(slot[i] == t[i - (64 - t.len())]);
            }
        }
    } else if f.0 == "uint256"@ {
        let n = sub->Uint_0;
        lemma_hex_encode_valid(u256_be_bytes(n));
    } else {
        lemma_hash_struct_spec_len(
            encode_type_spec(entries, f.0),
            encode_data_spec(entries, sub, f.0),
        );
    }
}

/// Where every field of the list is encodable against the value, the
/// concatenated slots form a well-formed hex string of exactly 64 digits
/// for each field.
proof fn lemma_encode_fields_len(
    entries: Seq<SchemaEntry>,
    v: Value,
    fields: Seq<(Seq<char>, Seq<char>)>,
)
    requires
        forall|k: int| 0 <= k < fields.len() ==> field_encodable(entries, v, #[trigger] fields[k]),
    ensures
        encode_fields(entries, v, fields).len() == 64 * fields.len(),
        valid_hex(encode_fields(entries, v, fields)),
    decreases fields.len(),
{
    if fields.len() == 0 {
    } else {
        lemma_field_slot_len(entries, v, fields[0]);
        assert(forall|k: int|
            0 <= k < fields.drop_first().len() ==> field_encodable(
                entries,
                v,
                #[trigger] fields.drop_first()[k],
            ));
        lemma_encode_fields_len(entries, v, fields.drop_first());
        lemma_valid_hex_concat(
            field_slot(entries, v, fields[0]),
            encode_fields(entries, v, fields.drop_first()),
        );
    }
}

/// Encoded length invariant: for a registered schema all of whose fields the
/// value supplies in encodable form, the encoded data is a well-formed hex
/// string holding exactly one 64-digit — 32-byte — slot per schema field.
pub proof fn lemma_encoded_length(entries: Seq<SchemaEntry>, v: Value, name: Seq<char>)
    requires
        lookup_entries(entries, name) is Some,
        forall|k: int|
            0 <= k < lookup_entries(entries, name).unwrap().len() ==> field_encodable(
                entries,
                v,
                #[trigger] lookup_entries(entries, name).unwrap()[k],
            ),
    ensures
        valid_hex(encode_data_spec(entries, v, name)),
        encode_data_spec(entries, v, name).len() == 64 * lookup_entries(
            entries,
            name,
        ).unwrap().len(),
{
    lemma_encode_fields_len(entries, v, lookup_entries(entries, name).unwrap());
}

/// Missing-field tolerance: a field the value does not supply contributes no
/// slot at all — the encoding goes on without an error, one slot short.
pub proof fn lemma_missing_field_slot(
    entries: Seq<SchemaEntry>,
    v: Value,
    f: (Seq<char>, Seq<char>),
)
    requires
        v.get_spec(f.1) is None,
    ensures
        field_slot(entries, v, f) == Seq::<char>::empty(),
{
}

} // verus!
