//! The digest assembler: domain separator, struct hash, and the final
//! signing digest.

use vstd::prelude::*;
use vstd::string::StringExecFns;
use crate::hexutil::{
    hex_encode_spec, hex_decode_or_empty, valid_hex, is_hex_digit, hex_decode,
    hex_encode,
};
use crate::hashing::{
    keccak256_digest, keccak256, hash_struct_spec, hash_struct, lemma_hash_struct_spec_len,
};
use crate::registry::{Registry, SchemaEntry, lookup_entries};
use crate::encoder::{
    encode_type, encode_type_spec, encode_data, encode_data_spec, encode_fields, field_slot,
    string_slot, address_slot, uint256_slot,
};
use crate::value::{Value, entries_get};

verus! {

/// The final signing digest, as hex: the Keccak-256 digest of the fixed
/// two-byte prefix 0x1901, followed by the domain separator (the struct hash
/// of the domain value) and the message struct hash.
pub open spec fn final_digest_spec(
    entries: Seq<SchemaEntry>,
    domain_schema: Seq<char>,
    domain_value: Value,
    message_schema: Seq<char>,
    message_value: Value,
) -> Seq<char> {
    let ds = hash_struct_spec(
        encode_type_spec(entries, domain_schema),
        encode_data_spec(entries, domain_value, domain_schema),
    );
    let sh = hash_struct_spec(
        encode_type_spec(entries, message_schema),
        encode_data_spec(entries, message_value, message_schema),
    );
    hex_encode_spec(keccak256_digest(hex_decode_or_empty("1901"@ + ds + sh)))
}

/// Assembles the final signing digest for a domain value and a message value
/// under one registry: each side is type-encoded, data-encoded and
/// struct-hashed, and the two struct hashes are hashed once more under the
/// fixed 0x1901 prefix.
pub fn final_digest(
    domain_schema: &str,
    domain_value: &Value,
    message_schema: &str,
    message_value: &Value,
    types: &Registry,
) -> (r: String)
    ensures
        r@ == final_digest_spec(
            types.entries(),
            domain_schema@,
            *domain_value,
            message_schema@,
            *message_value,
        ),
        r@.len() == 64,
{
    let ghost entries = types.entries();
    let domain_type = encode_type(domain_schema, types);
    let domain_encoded = encode_data(domain_value, domain_schema, types);
    let domain_separator = hash_struct(domain_type.as_str(), domain_encoded.as_str());
    let message_type = encode_type(message_schema, types);
    let message_encoded = encode_data(message_value, message_schema, types);
    let struct_hash = hash_struct(message_type.as_str(), message_encoded.as_str());
    let ghost ds = domain_separator@;
    let ghost sh = struct_hash@;
    let mut final_data = String::new();
    final_data.append("1901");
    final_data.append(domain_separator.as_str());
    final_data.append(struct_hash.as_str());
    proof {
        assert(final_data@ =~= "1901"@ + ds + sh);
        reveal_strlit("1901");
        lemma_hash_struct_spec_len(domain_type@, domain_encoded@);
        lemma_hash_struct_spec_len(message_type@, message_encoded@);
        assert forall|i: int| 0 <= i < final_data@.len() implies is_hex_digit(
            #[trigger] final_data@[i],
        ) by {
            if i < 4 {
                assert(final_data@[i] == "1901"@[i]);
            } else if i < 68 {
                assert(final_data@[i] == ds[i - 4]);
                assert(is_hex_digit(ds[i - 4]));
            } else {
                assert(final_data@[i] == sh[i - 68]);
                assert(is_hex_digit(sh[i - 68]));
            }
        }
        assert(valid_hex(final_data@));
    }
    let final_bytes = match hex_decode(final_data.as_str()) {
        Some(b) => b,
        None => {
            proof {
                assert(false);
            }
            Vec::new()
        },
    };
    let digest = keccak256(final_bytes.as_slice());
    let r = hex_encode(digest.as_slice());
    proof {
        crate::hexutil::lemma_hex_encode_valid(keccak256_digest(final_bytes@));
    }
    r
}

/// The contextual domain record the final digest is separated by.
pub struct EIP712Domain {
    pub name: String,
    pub version: String,
    pub chain_id: u64,
    pub verifying_contract: String,
}

/// The two schemas the permit digest is computed against: the standard
/// EIP712Domain schema and the EIP-2612 Permit schema.
pub open spec fn standard_entries() -> Seq<SchemaEntry> {
    seq![
        (
            "EIP712Domain"@,
            seq![
                ("string"@, "name"@),
                ("string"@, "version"@),
                ("uint256"@, "chainId"@),
                ("address"@, "verifyingContract"@),
            ],
        ),
        (
            "Permit"@,
            seq![
                ("address"@, "owner"@),
                ("address"@, "spender"@),
                ("uint256"@, "value"@),
                ("uint256"@, "nonce"@),
                ("uint256"@, "deadline"@),
            ],
        ),
    ]
}

/// The encoded data of a domain record against the EIP712Domain schema: a
/// string slot for the name, a string slot for the version, a uint256 slot
/// for the chain id, and an address slot for the verifying contract.
pub open spec fn domain_encoded_spec(d: EIP712Domain) -> Seq<char> {
    string_slot(d.name@) + string_slot(d.version@) + uint256_slot(d.chain_id) + address_slot(
        d.verifying_contract@,
    )
}

/// The final signing digest of a message against the standard
/// EIP712Domain/Permit registry, separated by the given domain record.
pub open spec fn create_eip712_hash_spec(
    d: EIP712Domain,
    primary_type: Seq<char>,
    message: Value,
) -> Seq<char> {
    let entries = standard_entries();
    let ds = hash_struct_spec(
        encode_type_spec(entries, "EIP712Domain"@),
        domain_encoded_spec(d),
    );
    let sh = hash_struct_spec(
        encode_type_spec(entries, primary_type),
        encode_data_spec(entries, message, primary_type),
    );
    hex_encode_spec(keccak256_digest(hex_decode_or_empty("1901"@ + ds + sh)))
}

/// Builds the standard registry: the EIP712Domain schema and the EIP-2612
/// Permit schema.
pub fn standard_registry() -> (r: Registry)
    ensures
        r.entries() == standard_entries(),
        r.wf(),
{
    let mut types = Registry::new();
    let ghost target = standard_entries();
    let mut dfields: Vec<(String, String)> = Vec::new();
    dfields.push((String::from_str("string"), String::from_str("name")));
    dfields.push((String::from_str("string"), String::from_str("version")));
    dfields.push((String::from_str("uint256"), String::from_str("chainId")));
    dfields.push((String::from_str("address"), String::from_str("verifyingContract")));
    let ghost dfv = crate::registry::fields_views(dfields@);
    types.define(String::from_str("EIP712Domain"), dfields);
    let ghost e1 = types.entries();
    proof {
        assert(dfv =~= target[0].1);
        assert(e1 =~= seq![("EIP712Domain"@, dfv)]);
    }
    let mut pfields: Vec<(String, String)> = Vec::new();
    pfields.push((String::from_str("address"), String::from_str("owner")));
    pfields.push((String::from_str("address"), String::from_str("spender")));
    pfields.push((String::from_str("uint256"), String::from_str("value")));
    pfields.push((String::from_str("uint256"), String::from_str("nonce")));
    pfields.push((String::from_str("uint256"), String::from_str("deadline")));
    let ghost pfv = crate::registry::fields_views(pfields@);
    types.define(String::from_str("Permit"), pfields);
    proof {
        reveal_strlit("EIP712Domain");
        reveal_strlit("Permit");
        assert("EIP712Domain"@.len() == 12);
        assert("Permit"@.len() == 6);
        assert("EIP712Domain"@ != "Permit"@);
        assert(pfv =~= target[1].1);
        assert(e1[0].0 == "EIP712Domain"@);
        assert(e1.drop_first() =~= Seq::<SchemaEntry>::empty());
        assert(types.entries() == seq![e1[0]] + crate::registry::define_entries(
            e1.drop_first(),
            "Permit"@,
            pfv,
        ));
        assert(types.entries() =~~= standard_entries());
    }
    types
}

/// Computes the EIP-712 signing digest of `message` against the standard
/// EIP712Domain/Permit registry, with `domain` as the domain record.
pub fn create_eip712_hash(domain: &EIP712Domain, primary_type: &str, message: &Value) -> (r:
    String)
    ensures
        r@ == create_eip712_hash_spec(*domain, primary_type@, *message),
        r@.len() == 64,
{
    let types = standard_registry();
    let mut dentries: Vec<(String, Value)> = Vec::new();
    dentries.push((String::from_str("name"), Value::Str(domain.name.clone())));
    dentries.push((String::from_str("version"), Value::Str(domain.version.clone())));
    dentries.push((String::from_str("chainId"), Value::Uint(domain.chain_id)));
    dentries.push(
        (String::from_str("verifyingContract"), Value::Str(domain.verifying_contract.clone())),
    );
    let domain_value = Value::Obj(dentries);
    let r = final_digest("EIP712Domain", &domain_value, primary_type, message, &types);
    proof {
        lemma_domain_value_encoding(*domain, domain_value);
    }
    r
}

/// A domain value tree built from a domain record, field by field in schema
/// order, encodes to exactly the four slots of `domain_encoded_spec`.
proof fn lemma_domain_value_encoding(d: EIP712Domain, dv: Value)
    requires
        dv matches Value::Obj(es) && es@.len() == 4 && es@[0].0@ == "name"@ && es@[0].1
            == Value::Str(d.name) && es@[1].0@ == "version"@ && es@[1].1 == Value::Str(d.version)
            && es@[2].0@ == "chainId"@ && es@[2].1 == Value::Uint(d.chain_id) && es@[3].0@
            == "verifyingContract"@ && es@[3].1 == Value::Str(d.verifying_contract),
    ensures
        encode_data_spec(standard_entries(), dv, "EIP712Domain"@) == domain_encoded_spec(d),
{
    reveal_strlit("name");
    reveal_strlit("version");
    reveal_strlit("chainId");
    reveal_strlit("verifyingContract");
    reveal_strlit("string");
    reveal_strlit("address");
    reveal_strlit("uint256");
    reveal_strlit("EIP712Domain");
    reveal_strlit("Permit");
    reveal_with_fuel(entries_get, 6);
    reveal_with_fuel(encode_fields, 6);
    let entries = standard_entries();
    let fields = seq![
        ("string"@, "name"@),
        ("string"@, "version"@),
        ("uint256"@, "chainId"@),
        ("address"@, "verifyingContract"@),
    ];
    assert(lookup_entries(entries, "EIP712Domain"@) == Some(fields));
    assert("name"@.len() == 4);
    assert("version"@.len() == 7);
    assert("chainId"@.len() == 7);
    assert("verifyingContract"@.len() == 17);
    assert("string"@.len() == 6);
    assert("address"@.len() == 7);
    assert("uint256"@.len() == 7);
    assert("version"@[0] == 'v');
    assert("chainId"@[0] == 'c');
    assert("address"@[0] == 'a');
    assert("uint256"@[0] == 'u');
    let es = dv->Obj_0;
    // Each field of the schema finds its entry in the value, in order.
    assert(es@.drop_first() =~= es@.skip(1));
    assert(es@.skip(1).drop_first() =~= es@.skip(2));
    assert(es@.skip(2).drop_first() =~= es@.skip(3));
    assert(entries_get(es@, "name"@) == Some(Value::Str(d.name)));
    assert(entries_get(es@, "version"@) == entries_get(es@.skip(1), "version"@));
    assert(entries_get(es@, "version"@) == Some(Value::Str(d.version)));
    assert(entries_get(es@, "chainId"@) == entries_get(es@.skip(1), "chainId"@));
    assert(entries_get(es@.skip(1), "chainId"@) == entries_get(es@.skip(2), "chainId"@));
    assert(entries_get(es@, "chainId"@) == Some(Value::Uint(d.chain_id)));
    assert(entries_get(es@, "verifyingContract"@) == entries_get(es@.skip(1), "verifyingContract"@));
    assert(entries_get(es@.skip(1), "verifyingContract"@) == entries_get(
        es@.skip(2),
        "verifyingContract"@,
    ));
    assert(entries_get(es@.skip(2), "verifyingContract"@) == entries_get(
        es@.skip(3),
        "verifyingContract"@,
    ));
    assert(entries_get(es@, "verifyingContract"@) == Some(Value::Str(d.verifying_contract)));
    assert(field_slot(entries, dv, fields[0]) == string_slot(d.name@));
    assert(field_slot(entries, dv, fields[1]) == string_slot(d.version@));
    assert(field_slot(entries, dv, fields[2]) == uint256_slot(d.chain_id));
    assert(field_slot(entries, dv, fields[3]) == address_slot(d.verifying_contract@));
    assert(fields.drop_first() =~= fields.skip(1));
    assert(fields.skip(1).drop_first() =~= fields.skip(2));
    assert(fields.skip(2).drop_first() =~= fields.skip(3));
    assert(fields.skip(3).drop_first() =~= fields.skip(4));
    assert(fields.skip(4) =~= Seq::<(Seq<char>, Seq<char>)>::empty());
    assert(encode_fields(entries, dv, fields) =~= domain_encoded_spec(d));
}

} // verus!
