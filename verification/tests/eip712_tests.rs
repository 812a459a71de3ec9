use eip712::digest::{create_eip712_hash, final_digest, standard_registry, EIP712Domain};
use eip712::encoder::{encode_data, encode_type};
use eip712::hashing::hash_struct;
use eip712::mnemonic::truncate_mnemonic_phrase;
use eip712::registry::Registry;
use eip712::value::Value;
use sha3::{Digest, Keccak256};

const PERMIT_SIG: &str =
    "Permit(address owner,address spender,uint256 value,uint256 nonce,uint256 deadline)";
const DOMAIN_SIG: &str =
    "EIP712Domain(string name,string version,uint256 chainId,address verifyingContract)";

fn permit_message(with_nonce: bool) -> Value {
    let mut entries = vec![
        (
            String::from("owner"),
            Value::Str(String::from("0xCD2a3d9F938E13CD947Ec05AbC7FE734Df8DD826")),
        ),
        (
            String::from("spender"),
            Value::Str(String::from("0xbBbBBBBbbBBBbbbBbbBbbbbBBbBbbbbBbBbbBBbB")),
        ),
        (String::from("value"), Value::Uint(1000000000)),
    ];
    if with_nonce {
        entries.push((String::from("nonce"), Value::Uint(0)));
    }
    entries.push((String::from("deadline"), Value::Uint(1700000000)));
    Value::Obj(entries)
}

fn usdc_domain() -> EIP712Domain {
    EIP712Domain {
        name: String::from("USD Coin"),
        version: String::from("2"),
        chain_id: 1,
        verifying_contract: String::from("0xA0b86a33E6441E6C7D3E4C7C5C6C8C8C8C8C8C8C"),
    }
}

#[test]
fn permit_type_signature() {
    let types = standard_registry();
    assert_eq!(encode_type("Permit", &types), PERMIT_SIG);
}

#[test]
fn domain_type_signature() {
    let types = standard_registry();
    assert_eq!(encode_type("EIP712Domain", &types), DOMAIN_SIG);
}

#[test]
fn unknown_type_signature_is_bare() {
    let types = standard_registry();
    assert_eq!(encode_type("Transfer", &types), "Transfer()");
}

#[test]
fn referenced_types_sorted_and_appended() {
    let mut types = Registry::new();
    types.define(
        String::from("Zeta"),
        vec![(String::from("string"), String::from("z"))],
    );
    types.define(
        String::from("Alpha"),
        vec![(String::from("string"), String::from("a"))],
    );
    types.define(
        String::from("Outer"),
        vec![
            (String::from("Zeta"), String::from("first")),
            (String::from("Alpha"), String::from("second")),
            (String::from("Zeta"), String::from("third")),
        ],
    );
    // Referenced types come deduplicated and in lexicographic order.
    assert_eq!(
        encode_type("Outer", &types),
        "Outer(Zeta first,Alpha second,Zeta third)Alpha(string a)Zeta(string z)"
    );
}

#[test]
fn encode_type_deterministic() {
    let types = standard_registry();
    assert_eq!(encode_type("Permit", &types), encode_type("Permit", &types));
}

#[test]
fn address_padding() {
    let mut types = Registry::new();
    types.define(
        String::from("Holder"),
        vec![(String::from("address"), String::from("who"))],
    );
    let value = Value::Obj(vec![(
        String::from("who"),
        Value::Str(String::from("0xCD2a3d9F938E13CD947Ec05AbC7FE734Df8DD826")),
    )]);
    let encoded = encode_data(&value, "Holder", &types);
    assert_eq!(encoded.len(), 64);
    assert_eq!(
        encoded,
        "000000000000000000000000CD2a3d9F938E13CD947Ec05AbC7FE734Df8DD826"
    );
}

#[test]
fn uint256_formatting() {
    let mut types = Registry::new();
    types.define(
        String::from("Amount"),
        vec![(String::from("uint256"), String::from("value"))],
    );
    let value = Value::Obj(vec![(String::from("value"), Value::Uint(1000000000))]);
    let encoded = encode_data(&value, "Amount", &types);
    assert_eq!(
        encoded,
        "000000000000000000000000000000000000000000000000000000003b9aca00"
    );
}

#[test]
fn string_field_hashes_to_digest_slot() {
    let mut types = Registry::new();
    types.define(
        String::from("Label"),
        vec![(String::from("string"), String::from("text"))],
    );
    let value = Value::Obj(vec![(
        String::from("text"),
        Value::Str(String::from("USD Coin")),
    )]);
    let encoded = encode_data(&value, "Label", &types);
    let expected = hex::encode(Keccak256::digest("USD Coin".as_bytes()));
    assert_eq!(encoded, expected);
}

#[test]
fn encoded_length_is_32_bytes_per_field() {
    let types = standard_registry();
    let message = permit_message(true);
    let encoded = encode_data(&message, "Permit", &types);
    assert_eq!(encoded.len(), 64 * 5);
    let bytes = hex::decode(&encoded).expect("well-formed hex");
    assert_eq!(bytes.len(), 32 * 5);
}

#[test]
fn missing_field_shortens_encoding_and_changes_digest() {
    let types = standard_registry();
    let full = permit_message(true);
    let partial = permit_message(false);
    let encoded_partial = encode_data(&partial, "Permit", &types);
    assert_eq!(encoded_partial.len(), 64 * 4);
    assert_eq!(hex::decode(&encoded_partial).unwrap().len(), 32 * 4);
    let domain = usdc_domain();
    let full_digest = create_eip712_hash(&domain, "Permit", &full);
    let partial_digest = create_eip712_hash(&domain, "Permit", &partial);
    assert_ne!(full_digest, partial_digest);
}

#[test]
fn unknown_field_type_contributes_nothing() {
    let mut types = Registry::new();
    types.define(
        String::from("Odd"),
        vec![
            (String::from("bytes32"), String::from("blob")),
            (String::from("uint256"), String::from("count")),
        ],
    );
    let value = Value::Obj(vec![
        (String::from("blob"), Value::Str(String::from("abc"))),
        (String::from("count"), Value::Uint(7)),
    ]);
    let encoded = encode_data(&value, "Odd", &types);
    assert_eq!(encoded.len(), 64);
}

#[test]
fn mismatched_value_shape_contributes_nothing() {
    let types = standard_registry();
    let value = Value::Obj(vec![
        (String::from("owner"), Value::Uint(5)),
        (String::from("spender"), Value::Str(String::from("0xbB"))),
        (String::from("value"), Value::Uint(1)),
    ]);
    // owner has the wrong shape; only spender and value encode.
    let encoded = encode_data(&value, "Permit", &types);
    assert_eq!(encoded.len(), 64 * 2);
}

#[test]
fn nested_struct_field_encodes_as_struct_hash() {
    let mut types = Registry::new();
    types.define(
        String::from("Person"),
        vec![(String::from("string"), String::from("name"))],
    );
    types.define(
        String::from("Mail"),
        vec![
            (String::from("Person"), String::from("from")),
            (String::from("string"), String::from("contents")),
        ],
    );
    let mail = Value::Obj(vec![
        (
            String::from("from"),
            Value::Obj(vec![(String::from("name"), Value::Str(String::from("Cow")))]),
        ),
        (
            String::from("contents"),
            Value::Str(String::from("Hello")),
        ),
    ]);
    let encoded = encode_data(&mail, "Mail", &types);
    assert_eq!(encoded.len(), 64 * 2);
    // The first slot is the struct hash of the nested person value.
    let person = Value::Obj(vec![(String::from("name"), Value::Str(String::from("Cow")))]);
    let person_encoded = encode_data(&person, "Person", &types);
    let person_hash = hash_struct(&encode_type("Person", &types), &person_encoded);
    assert_eq!(&encoded[..64], person_hash.as_str());
}

#[test]
fn permit_typehash_matches_reference_constant() {
    // The well-known EIP-2612 permit typehash.
    assert_eq!(
        hex::encode(Keccak256::digest(PERMIT_SIG.as_bytes())),
        "6e71edae12b1b97f4d1f60370fef10105fa2faae0126114a169c64845d6126c9"
    );
}

#[test]
fn hash_struct_matches_reference_computation() {
    let out = hash_struct(PERMIT_SIG, "");
    let type_hash = Keccak256::digest(PERMIT_SIG.as_bytes());
    let expected = hex::encode(Keccak256::digest(&type_hash));
    assert_eq!(out, expected);
}

#[test]
fn hash_struct_malformed_data_falls_back_to_empty() {
    let out = hash_struct("Odd()", "zz");
    let empty: &[u8] = &[];
    assert_eq!(out, hex::encode(Keccak256::digest(empty)));
}

#[test]
fn end_to_end_permit_digest_matches_reference() {
    let domain = usdc_domain();
    let message = permit_message(true);
    let digest = create_eip712_hash(&domain, "Permit", &message);
    assert_eq!(digest.len(), 64);

    // Independent reference computation, assembled by hand.
    let domain_encoded = [
        hex::encode(Keccak256::digest("USD Coin".as_bytes())),
        hex::encode(Keccak256::digest("2".as_bytes())),
        format!("{:064x}", 1u64),
        format!("{:0>64}", "A0b86a33E6441E6C7D3E4C7C5C6C8C8C8C8C8C8C"),
    ]
    .concat();
    let domain_separator = {
        let type_hash = hex::encode(Keccak256::digest(DOMAIN_SIG.as_bytes()));
        let bytes = hex::decode(format!("{}{}", type_hash, domain_encoded)).unwrap();
        hex::encode(Keccak256::digest(&bytes))
    };
    let message_encoded = [
        format!("{:0>64}", "CD2a3d9F938E13CD947Ec05AbC7FE734Df8DD826"),
        format!("{:0>64}", "bBbBBBBbbBBBbbbBbbBbbbbBBbBbbbbBbBbbBBbB"),
        format!("{:064x}", 1000000000u64),
        format!("{:064x}", 0u64),
        format!("{:064x}", 1700000000u64),
    ]
    .concat();
    let struct_hash = {
        let type_hash = hex::encode(Keccak256::digest(PERMIT_SIG.as_bytes()));
        let bytes = hex::decode(format!("{}{}", type_hash, message_encoded)).unwrap();
        hex::encode(Keccak256::digest(&bytes))
    };
    let final_bytes =
        hex::decode(format!("1901{}{}", domain_separator, struct_hash)).unwrap();
    let expected = hex::encode(Keccak256::digest(&final_bytes));
    assert_eq!(digest, expected);
}

#[test]
fn final_digest_agrees_with_create_eip712_hash() {
    let types = standard_registry();
    let domain = usdc_domain();
    let domain_value = Value::Obj(vec![
        (String::from("name"), Value::Str(domain.name.clone())),
        (String::from("version"), Value::Str(domain.version.clone())),
        (String::from("chainId"), Value::Uint(domain.chain_id)),
        (
            String::from("verifyingContract"),
            Value::Str(domain.verifying_contract.clone()),
        ),
    ]);
    let message = permit_message(true);
    let via_assembler = final_digest("EIP712Domain", &domain_value, "Permit", &message, &types);
    let via_permit_entry = create_eip712_hash(&domain, "Permit", &message);
    assert_eq!(via_assembler, via_permit_entry);
}

#[test]
fn digest_deterministic_across_calls() {
    let domain = usdc_domain();
    let message = permit_message(true);
    let first = create_eip712_hash(&domain, "Permit", &message);
    let second = create_eip712_hash(&domain, "Permit", &message);
    assert_eq!(first, second);
}

#[test]
fn registry_define_replaces_and_lookup_finds() {
    let mut types = Registry::new();
    types.define(
        String::from("Thing"),
        vec![(String::from("uint256"), String::from("a"))],
    );
    types.define(
        String::from("Thing"),
        vec![(String::from("string"), String::from("b"))],
    );
    assert_eq!(types.len(), 1);
    let fields = types.lookup("Thing").unwrap();
    assert_eq!(fields, vec![(String::from("string"), String::from("b"))]);
    assert!(types.lookup("Missing").is_none());
    assert!(types.contains_schema("Thing"));
    assert!(!types.contains_schema("Missing"));
}

#[test]
fn value_get_finds_first_entry() {
    let v = Value::Obj(vec![
        (String::from("a"), Value::Uint(1)),
        (String::from("b"), Value::Uint(2)),
    ]);
    assert!(matches!(v.get("a"), Some(Value::Uint(1))));
    assert!(matches!(v.get("b"), Some(Value::Uint(2))));
    assert!(v.get("c").is_none());
    assert!(Value::Uint(3).get("a").is_none());
}

#[test]
fn truncate_mnemonic_keeps_first_and_last_word() {
    assert_eq!(
        truncate_mnemonic_phrase("abandon ability able about above absent absorb abstract"),
        "abandon...abstract"
    );
    assert_eq!(truncate_mnemonic_phrase("  solo  "), "solo...solo");
    assert_eq!(truncate_mnemonic_phrase("two words"), "two...words");
}
