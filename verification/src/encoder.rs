//! The type encoder and the data encoder.

use vstd::prelude::*;
use vstd::string::StrSliceExecFns;
use vstd::string::StringExecFns;
use crate::hexutil::{hex_encode_spec, hex_encode};
use crate::hashing::{keccak256_digest, keccak256, hash_struct_spec, hash_struct};
use crate::registry::{Registry, SchemaEntry, fields_views, lookup_entries};
use crate::strutil::{str_eq, sort_strs, sort_strings, contains_str, views};
use crate::value::{Value, entries_get, lemma_entries_get_element};

verus! {

/// The rendering of one field inside a signature: "<type> <name>".
pub open spec fn field_str(f: (Seq<char>, Seq<char>)) -> Seq<char> {
    f.0 + " "@ + f.1
}

/// The ",<field>" renderings of every field, concatenated.
pub open spec fn field_list_tail(fields: Seq<(Seq<char>, Seq<char>)>) -> Seq<char>
    decreases fields.len(),
{
    if fields.len() == 0 {
        Seq::<char>::empty()
    } else {
        ","@ + field_str(fields[0]) + field_list_tail(fields.drop_first())
    }
}

/// The comma-joined field list of a signature.
pub open spec fn field_list_str(fields: Seq<(Seq<char>, Seq<char>)>) -> Seq<char> {
    if fields.len() == 0 {
        Seq::<char>::empty()
    } else {
        field_str(fields[0]) + field_list_tail(fields.drop_first())
    }
}

/// The referenced struct types of a field list: field types that are
/// registered schema names other than the primary type itself, first
/// occurrence kept, in field order, appended to `acc`.
pub open spec fn collect_refs(
    entries: Seq<SchemaEntry>,
    fields: Seq<(Seq<char>, Seq<char>)>,
    primary: Seq<char>,
    acc: Seq<Seq<char>>,
) -> Seq<Seq<char>>
    decreases fields.len(),
{
    if fields.len() == 0 {
        acc
    } else {
        let t = fields[0].0;
        let acc2 = if lookup_entries(entries, t) is Some && t != primary && !acc.contains(t) {
            acc.push(t)
        } else {
            acc
        };
        collect_refs(entries, fields.drop_first(), primary, acc2)
    }
}

/// The canonical type signature of `name`: the header
/// `name(type1 name1,...)`, followed, while `fuel` lasts, by the signatures
/// of the referenced struct types, sorted lexicographically and
/// deduplicated. An unregistered name yields the bare header `name()`.
pub open spec fn encode_type_rec(entries: Seq<SchemaEntry>, name: Seq<char>, fuel: nat) -> Seq<
    char,
>
    decreases fuel, 0nat, 0nat,
{
    match lookup_entries(entries, name) {
        Some(fields) => {
            let header = name + "("@ + field_list_str(fields) + ")"@;
            if fuel == 0 {
                header
            } else {
                header + encode_refs(
                    entries,
                    sort_strs(collect_refs(entries, fields, name, Seq::<Seq<char>>::empty())),
                    (fuel - 1) as nat,
                )
            }
        },
        None => name + "("@ + ")"@,
    }
}

/// The concatenated signatures of `refs`, each expanded with `fuel`.
pub open spec fn encode_refs(entries: Seq<SchemaEntry>, refs: Seq<Seq<char>>, fuel: nat) -> Seq<
    char,
>
    decreases fuel, 1nat, refs.len(),
{
    if refs.len() == 0 {
        Seq::<char>::empty()
    } else {
        encode_type_rec(entries, refs[0], fuel) + encode_refs(entries, refs.drop_first(), fuel)
    }
}

/// The canonical type signature of `name` under `entries`. The expansion
/// depth is bounded by the number of registered schemas, which covers every
/// acyclic registry; on a registry with a reference cycle of two or more
/// schemas the expansion is cut off at that depth instead of recursing
/// without bound.
pub open spec fn encode_type_spec(entries: Seq<SchemaEntry>, name: Seq<char>) -> Seq<char> {
    encode_type_rec(entries, name, entries.len() as nat)
}

fn encode_type_fueled(primary_type: &str, types: &Registry, fuel: usize) -> (r: String)
    ensures
        r@ == encode_type_rec(types.entries(), primary_type@, fuel as nat),
    decreases fuel,
{
    let ghost entries = types.entries();
    let mut result = String::new();
    result.append(primary_type);
    result.append("(");
    match types.lookup_ref(primary_type) {
        None => {
            result.append(")");
            result
        },
        Some(fields) => {
            let ghost fviews = fields_views(fields@);
            let n = fields.len();
            let mut i: usize = 0;
            while i < n
                invariant
                    n == fields@.len(),
                    i <= n,
                    fviews == fields_views(fields@),
                    i == 0 ==> result@ == primary_type@ + "("@,
                    i >= 1 ==> result@ + field_list_tail(fviews.skip(i as int)) == primary_type@
                        + "("@ + field_list_str(fviews),
                decreases n - i,
            {
                let ghost r0 = result@;
                proof {
                    assert(fviews.skip(i as int)[0] == fviews[i as int]);
                    assert(fviews.skip(i as int).drop_first() =~= fviews.skip(i as int + 1));
                }
                if i > 0 {
                    result.append(",");
                }
                result.append(fields[i].0.as_str());
                result.append(" ");
                result.append(fields[i].1.as_str());
                proof {
                    assert(fviews[i as int] == (fields@[i as int].0@, fields@[i as int].1@));
                    if i == 0 {
                        assert(fviews.drop_first() =~= fviews.skip(1));
                        assert(result@ =~= r0 + field_str(fviews[0]));
                        assert(result@ + field_list_tail(fviews.skip(1)) =~= primary_type@ + "("@
                            + field_list_str(fviews));
                    } else {
                        assert(result@ =~= r0 + (","@ + field_str(fviews[i as int])));
                        assert(field_list_tail(fviews.skip(i as int)) == ","@ + field_str(
                            fviews[i as int],
                        ) + field_list_tail(fviews.skip(i as int + 1)));
                        assert(result@ + field_list_tail(fviews.skip(i as int + 1)) =~= r0
                            + field_list_tail(fviews.skip(i as int)));
                    }
                }
                i += 1;
            }
            result.append(")");
            let ghost header = primary_type@ + "("@ + field_list_str(fviews) + ")"@;
            proof {
                if n == 0 {
                    assert(result@ =~= header);
                } else {
                    assert(fviews.skip(n as int) =~= Seq::<(Seq<char>, Seq<char>)>::empty());
                    assert(field_list_tail(fviews.skip(n as int)) == Seq::<char>::empty());
                    assert(result@ =~= header);
                }
            }
            if fuel == 0 {
                return result;
            }
            // Collect the referenced struct types, deduplicated, in field
            // order.
            let mut refs: Vec<String> = Vec::new();
            let ghost all_refs = collect_refs(
                entries,
                fviews,
                primary_type@,
                Seq::<Seq<char>>::empty(),
            );
            proof {
                assert(fviews.skip(0) =~= fviews);
                assert(views(refs@) =~= Seq::<Seq<char>>::empty());
            }
            let mut i2: usize = 0;
            while i2 < n
                invariant
                    n == fields@.len(),
                    i2 <= n,
                    fviews == fields_views(fields@),
                    entries == types.entries(),
                    all_refs == collect_refs(
                        entries,
                        fviews.skip(i2 as int),
                        primary_type@,
                        views(refs@),
                    ),
                decreases n - i2,
            {
                let ghost acc0 = views(refs@);
                proof {
                    assert(fviews.skip(i2 as int)[0] == fviews[i2 as int]);
                    assert(fviews.skip(i2 as int).drop_first() =~= fviews.skip(i2 as int + 1));
                    assert(fviews[i2 as int] == (fields@[i2 as int].0@, fields@[i2 as int].1@));
                }
                let ft = &fields[i2].0;
                if types.contains_schema(ft.as_str()) && !str_eq(ft.as_str(), primary_type)
                    && !contains_str(&refs, ft.as_str()) {
                    refs.push(ft.clone());
                    proof {
                        assert(views(refs@) =~= acc0.push(fviews[i2 as int].0));
                    }
                }
                i2 += 1;
            }
            proof {
                assert(fviews.skip(n as int) =~= Seq::<(Seq<char>, Seq<char>)>::empty());
                assert(all_refs == views(refs@));
            }
            // Expand each referenced type, in sorted order.
            let sorted = sort_strings(&refs);
            let ghost sviews = views(sorted@);
            let ghost goal = header + encode_refs(entries, sort_strs(all_refs), (fuel - 1) as nat);
            proof {
                assert(sviews == sort_strs(all_refs));
                assert(encode_type_rec(entries, primary_type@, fuel as nat) == goal);
                assert(sviews.skip(0) =~= sviews);
            }
            let m = sorted.len();
            let mut k: usize = 0;
            while k < m
                invariant
                    m == sorted@.len(),
                    k <= m,
                    1 <= fuel,
                    sviews == views(sorted@),
                    entries == types.entries(),
                    result@ + encode_refs(entries, sviews.skip(k as int), (fuel - 1) as nat)
                        == goal,
                decreases m - k,
            {
                let ghost r0 = result@;
                proof {
                    assert(sviews.skip(k as int)[0] == sviews[k as int]);
                    assert(sviews.skip(k as int).drop_first() =~= sviews.skip(k as int + 1));
                    assert(sorted@[k as int]@ == sviews[k as int]);
                }
                let sub = encode_type_fueled(sorted[k].as_str(), types, fuel - 1);
                result.append(sub.as_str());
                proof {
                    assert(encode_refs(entries, sviews.skip(k as int), (fuel - 1) as nat)
                        == encode_type_rec(entries, sviews[k as int], (fuel - 1) as nat)
                        + encode_refs(entries, sviews.skip(k as int + 1), (fuel - 1) as nat));
                    assert(result@ + encode_refs(entries, sviews.skip(k as int + 1), (fuel
                        - 1) as nat) =~= r0 + encode_refs(
                        entries,
                        sviews.skip(k as int),
                        (fuel - 1) as nat,
                    ));
                }
                k += 1;
            }
            proof {
                assert(sviews.skip(m as int) =~= Seq::<Seq<char>>::empty());
                assert(result@ =~= goal);
            }
            result
        },
    }
}

/// Renders the canonical type signature of `primary_type` under the
/// registry: the header with its comma-joined fields, followed by the
/// signatures of every referenced struct type, sorted lexicographically and
/// deduplicated, the primary type itself excluded.
pub fn encode_type(primary_type: &str, types: &Registry) -> (r: String)
    ensures
        r@ == encode_type_spec(types.entries(), primary_type@),
{
    let fuel = types.len();
    encode_type_fueled(primary_type, types, fuel)
}

/// The slot of a string field: the hex rendering of the Keccak-256 digest of
/// the string's UTF-8 bytes.
pub open spec fn string_slot(s: Seq<char>) -> Seq<char> {
    hex_encode_spec(keccak256_digest(vstd::utf8::encode_utf8(s)))
}

/// An address value with one optional `0x` prefix removed.
pub open spec fn strip_0x(s: Seq<char>) -> Seq<char> {
    if s.len() >= 2 && s[0] == '0' && s[1] == 'x' {
        s.skip(2)
    } else {
        s
    }
}

/// The slot of an address field: the address's hex digits, left-padded with
/// `0` to 64 characters. An overlong or malformed value is kept as it is,
/// unvalidated.
pub open spec fn address_slot(s: Seq<char>) -> Seq<char> {
    let t = strip_0x(s);
    if t.len() >= 64 {
        t
    } else {
        Seq::new((64 - t.len()) as nat, |k: int| '0') + t
    }
}

/// The 32 big-endian bytes of a 64-bit unsigned integer, zero-extended on
/// the left.
pub open spec fn u256_be_bytes(n: u64) -> Seq<u8> {
    Seq::new(
        32,
        |i: int|
            if i < 24 {
                0u8
            } else {
                ((n >> (((31 - i) * 8) as u64)) & 0xff) as u8
            },
    )
}

/// The slot of a uint256 field: the 64-digit big-endian hex rendering of the
/// integer, zero-padded on the left.
pub open spec fn uint256_slot(n: u64) -> Seq<char> {
    hex_encode_spec(u256_be_bytes(n))
}

/// The encoded bytes of one field, as hex: one 32-byte slot, or nothing at
/// all where the field is absent from the value, its value has the wrong
/// shape, or its type is neither a recognised scalar nor a registered
/// schema.
pub open spec fn field_slot(
    entries: Seq<SchemaEntry>,
    v: Value,
    field: (Seq<char>, Seq<char>),
) -> Seq<char>
    decreases v, 0nat, 0nat,
    via field_slot_decreases
{
    match v.get_spec(field.1) {
        None => Seq::<char>::empty(),
        Some(sub) => {
            if field.0 == "string"@ {
                match sub {
                    Value::Str(s) => string_slot(s@),
                    _ => Seq::<char>::empty(),
                }
            } else if field.0 == "address"@ {
                match sub {
                    Value::Str(s) => address_slot(s@),
                    _ => Seq::<char>::empty(),
                }
            } else if field.0 == "uint256"@ {
                match sub {
                    Value::Uint(n) => uint256_slot(n),
                    _ => Seq::<char>::empty(),
                }
            } else if lookup_entries(entries, field.0) is Some {
                hash_struct_spec(
                    encode_type_spec(entries, field.0),
                    encode_data_spec(entries, sub, field.0),
                )
            } else {
                Seq::<char>::empty()
            }
        },
    }
}

#[via_fn]
proof fn field_slot_decreases(entries: Seq<SchemaEntry>, v: Value, field: (Seq<char>, Seq<char>)) {
    if v.get_spec(field.1) is Some {
        lemma_get_spec_smaller(v, field.1);
    }
}

/// A field value handed back by a lookup sits below the mapping it came
/// from.
pub proof fn lemma_get_spec_smaller(v: Value, name: Seq<char>)
    requires
        v.get_spec(name) is Some,
    ensures
        decreases_to!(v => v.get_spec(name).unwrap()),
{
    match v {
        Value::Obj(es) => {
            lemma_entries_get_element(es@, name);
            let i = choose|i: int|
                0 <= i < es@.len() && (#[trigger] es@[i]).1 == entries_get(es@, name).unwrap();
            assert(decreases_to!(v => es));
            assert(decreases_to!(es => es@));
            assert(decreases_to!(es@ => es@[i]));
            assert(decreases_to!(es@[i] => es@[i].1));
        },
        _ => {},
    }
}

/// The concatenated slots of `fields`, in declared order.
pub open spec fn encode_fields(
    entries: Seq<SchemaEntry>,
    v: Value,
    fields: Seq<(Seq<char>, Seq<char>)>,
) -> Seq<char>
    decreases v, 1nat, fields.len(),
{
    if fields.len() == 0 {
        Seq::<char>::empty()
    } else {
        field_slot(entries, v, fields[0]) + encode_fields(entries, v, fields.drop_first())
    }
}

/// The encoded data of `v` against the schema `name`: the concatenated hex
/// slots of the schema's fields, in declared order. An unregistered schema
/// encodes to nothing.
pub open spec fn encode_data_spec(entries: Seq<SchemaEntry>, v: Value, name: Seq<char>) -> Seq<
    char,
>
    decreases v, 2nat, 0nat,
{
    match lookup_entries(entries, name) {
        Some(fields) => encode_fields(entries, v, fields),
        None => Seq::<char>::empty(),
    }
}

fn address_slot_exec(addr: &str) -> (r: String)
    ensures
        r@ == address_slot(addr@),
{
    let len = addr.unicode_len();
    let stripped: &str = if len >= 2 && addr.get_char(0) == '0' && addr.get_char(1) == 'x' {
        addr.substring_char(2, len)
    } else {
        addr
    };
    proof {
        assert(stripped@ =~= strip_0x(addr@));
    }
    let slen = stripped.unicode_len();
    let mut r = String::new();
    if slen < 64 {
        let pad = 64 - slen;
        let mut k: usize = 0;
        while k < pad
            invariant
                k <= pad,
                r@.len() == k,
                forall|j: int| 0 <= j < k ==> r@[j] == '0',
            decreases pad - k,
        {
            r.append("0");
            proof {
                reveal_strlit("0");
            }
            k += 1;
        }
        r.append(stripped);
        proof {
            assert(r@ =~= Seq::new((64 - strip_0x(addr@).len()) as nat, |j: int| '0') + strip_0x(
                addr@,
            ));
        }
    } else {
        r.append(stripped);
        proof {
            assert(r@ =~= strip_0x(addr@));
        }
    }
    r
}

fn uint256_slot_exec(n: u64) -> (r: String)
    ensures
        r@ == uint256_slot(n),
{
    let mut bytes: Vec<u8> = Vec::new();
    let mut k: usize = 0;
    while k < 32
        invariant
            k <= 32,
            bytes@.len() == k,
            forall|j: int| 0 <= j < k ==> bytes@[j] == u256_be_bytes(n)[j],
        decreases 32 - k,
    {
        if k < 24 {
            bytes.push(0u8);
        } else {
            let sh: u64 = ((31 - k) * 8) as u64;
            assert((n >> sh) & 0xff < 256) by (bit_vector);
            let b = ((n >> sh) & 0xff) as u8;
            bytes.push(b);
            proof {
                assert(sh == ((31 - k as int) * 8) as u64);
            }
        }
        k += 1;
    }
    proof {
        assert(bytes@ =~= u256_be_bytes(n));
    }
    hex_encode(bytes.as_slice())
}

/// Serializes the fields of `data` against the schema `struct_type`, in
/// declared field order, one 32-byte hex slot for each field that is present
/// and matches: a string hashes to its digest slot, an address pads to 64
/// hex digits, a uint256 renders big-endian, and a field of a registered
/// struct type contributes that struct's hash. Absent fields, mismatched
/// values and unrecognised field types contribute nothing, by the tolerant
/// policy.
pub fn encode_data(data: &Value, struct_type: &str, types: &Registry) -> (r: String)
    ensures
        r@ == encode_data_spec(types.entries(), *data, struct_type@),
    decreases *data,
{
    let ghost entries = types.entries();
    let mut encoded = String::new();
    match types.lookup_ref(struct_type) {
        None => encoded,
        Some(fields) => {
            let ghost fviews = fields_views(fields@);
            proof {
                assert(fviews.skip(0) =~= fviews);
            }
            let n = fields.len();
            let mut i: usize = 0;
            while i < n
                invariant
                    n == fields@.len(),
                    i <= n,
                    fviews == fields_views(fields@),
                    entries == types.entries(),
                    encoded@ + encode_fields(entries, *data, fviews.skip(i as int))
                        == encode_fields(entries, *data, fviews),
                decreases n - i,
            {
                let ghost enc0 = encoded@;
                proof {
                    assert(fviews.skip(i as int)[0] == fviews[i as int]);
                    assert(fviews.skip(i as int).drop_first() =~= fviews.skip(i as int + 1));
                    assert(fviews[i as int] == (fields@[i as int].0@, fields@[i as int].1@));
                }
                let ghost fld = fviews[i as int];
                let ftype = &fields[i].0;
                let fname = &fields[i].1;
                match data.get(fname.as_str()) {
                    None => {
                        proof {
                            assert(field_slot(entries, *data, fld) == Seq::<char>::empty());
                        }
                    },
                    Some(sub) => {
                        if str_eq(ftype.as_str(), "string") {
                            match sub {
                                Value::Str(s) => {
                                    let h = keccak256(s.as_str().as_bytes());
                                    let hx = hex_encode(h.as_slice());
                                    encoded.append(hx.as_str());
                                    proof {
                                        assert(hx@ == string_slot(s@));
                                        assert(field_slot(entries, *data, fld) == string_slot(s@));
                                    }
                                },
                                _ => {
                                    proof {
                                        assert(field_slot(entries, *data, fld) == Seq::<
                                            char,
                                        >::empty());
                                    }
                                },
                            }
                        } else if str_eq(ftype.as_str(), "address") {
                            match sub {
                                Value::Str(s) => {
                                    let slot = address_slot_exec(s.as_str());
                                    encoded.append(slot.as_str());
                                    proof {
                                        assert(field_slot(entries, *data, fld) == address_slot(
                                            s@,
                                        ));
                                    }
                                },
                                _ => {
                                    proof {
                                        assert(field_slot(entries, *data, fld) == Seq::<
                                            char,
                                        >::empty());
                                    }
                                },
                            }
                        } else if str_eq(ftype.as_str(), "uint256") {
                            match sub {
                                Value::Uint(num) => {
                                    let slot = uint256_slot_exec(*num);
                                    encoded.append(slot.as_str());
                                    proof {
                                        assert(field_slot(entries, *data, fld) == uint256_slot(
                                            *num,
                                        ));
                                    }
                                },
                                _ => {
                                    proof {
                                        assert(field_slot(entries, *data, fld) == Seq::<
                                            char,
                                        >::empty());
                                    }
                                },
                            }
                        } else {
                            if types.contains_schema(ftype.as_str()) {
                                proof {
                                    lemma_get_spec_smaller(*data, fname@);
                                }
                                let nested_encoded = encode_data(sub, ftype.as_str(), types);
                                let nested_hash = hash_struct(
                                    encode_type(ftype.as_str(), types).as_str(),
                                    nested_encoded.as_str(),
                                );
                                encoded.append(nested_hash.as_str());
                                proof {
                                    assert(field_slot(entries, *data, fld) == hash_struct_spec(
                                        encode_type_spec(entries, fld.0),
                                        encode_data_spec(entries, *sub, fld.0),
                                    ));
                                }
                            } else {
                                proof {
                                    assert(field_slot(entries, *data, fld) == Seq::<
                                        char,
                                    >::empty());
                                }
                            }
                        }
                    },
                }
                proof {
                    assert(encode_fields(entries, *data, fviews.skip(i as int)) == field_slot(
                        entries,
                        *data,
                        fld,
                    ) + encode_fields(entries, *data, fviews.skip(i as int + 1)));
                    assert(encoded@ + encode_fields(entries, *data, fviews.skip(i as int + 1)) =~=
                        enc0 + encode_fields(entries, *data, fviews.skip(i as int)));
                }
                i += 1;
            }
            proof {
                assert(fviews.skip(n as int) =~= Seq::<(Seq<char>, Seq<char>)>::empty());
                assert(encoded@ =~= encode_fields(entries, *data, fviews));
            }
            encoded
        },
    }
}

} // verus!
