//! A whole structure written into an empty key and read back: a model of a
//! key's contents, filled by the encoder's writes and read by the decoder's
//! enumeration and reads.

use vstd::prelude::*;

use crate::decoder::{
    law_fields_enumerated_once_in_order, spec_field_at, spec_next_keys, spec_read_bool,
    spec_read_int, spec_read_u32, spec_read_u64, DecoderError, DecoderState,
};
use crate::roundtrip::{
    law_bool_read_back, law_int_read_back, law_str_read_back, law_u32_read_back, law_u64_read_back,
};
use crate::text::int_text;
use crate::value::{
    spec_dword_value, spec_qword_value, spec_string_of, spec_string_value, RegType, RegValue,
};

verus! {

/// A field's data, by the kind of registry value it is written as. `Int` is
/// a signed integer of a width whose range is `[min, max]` (`i8` to `i64`);
/// `Struct` is a nested structure with its fields in declaration order.
pub enum FieldData {
    U32(u32),
    U64(u64),
    Bool(bool),
    Text(Seq<char>),
    Int { v: int, min: int, max: int },
    Struct(Seq<(Seq<char>, FieldData)>),
}

/// What a registry key holds: its values by name, each the bytes and type
/// stored, and its subkeys by name.
pub struct KeyModel {
    pub values: Map<Seq<char>, (Seq<u8>, RegType)>,
    pub subkeys: Map<Seq<char>, KeyModel>,
}

/// A key with no values and no subkeys.
pub open spec fn empty_key() -> KeyModel {
    KeyModel { values: Map::empty(), subkeys: Map::empty() }
}

/// What the encoder stores for a field that is not a structure: the value
/// that the matching `serialize_*` hands out under the field's name
/// (`Encoder::serialize_u32`, `serialize_u64`, `serialize_bool`,
/// `serialize_str`, `serialize_i8` to `serialize_i64`).
pub open spec fn stored_form(d: FieldData) -> (Seq<u8>, RegType) {
    match d {
        FieldData::U32(v) => spec_dword_value(v),
        FieldData::U64(v) => spec_qword_value(v),
        FieldData::Bool(b) => spec_dword_value(
            if b {
                1
            } else {
                0
            },
        ),
        FieldData::Text(s) => spec_string_value(s),
        FieldData::Int { v, .. } => spec_string_value(int_text(v)),
        FieldData::Struct(_) => (Seq::empty(), RegType::REG_NONE),
    }
}

/// The key after the encoder writes the fields of a structure into it, in
/// order: each field's value is set under its name, and a nested structure
/// is written into the subkey of its name, opened or created.
pub open spec fn encode_fields(key: KeyModel, fields: Seq<(Seq<char>, FieldData)>) -> KeyModel
    decreases fields,
{
    if fields.len() == 0 {
        key
    } else {
        encode_field(encode_fields(key, fields.drop_last()), fields.last().0, fields.last().1)
    }
}

/// The key after the encoder writes one field, `name`, holding `d`.
pub open spec fn encode_field(key: KeyModel, name: Seq<char>, d: FieldData) -> KeyModel
    decreases d,
{
    match d {
        FieldData::Struct(inner) => {
            let sub = if key.subkeys.contains_key(name) {
                key.subkeys[name]
            } else {
                empty_key()
            };
            KeyModel { values: key.values, subkeys: key.subkeys.insert(name, encode_fields(sub, inner)) }
        },
        _ => KeyModel { values: key.values.insert(name, stored_form(d)), subkeys: key.subkeys },
    }
}

/// Every read of a value stored as `stored` gives back `d`, by the read of
/// its kind: `read_u32`, `read_u64`, `read_bool`, `read_string`, or a read of
/// a signed integer of range `[min, max]`.
pub open spec fn value_reads_back(stored: (Seq<u8>, RegType), d: FieldData) -> bool {
    forall|val: RegValue|
        #![trigger val.bytes@]
        val.bytes@ == stored.0 && val.vtype == stored.1 ==> match d {
            FieldData::U32(v) => spec_read_u32(val) == Ok::<u32, DecoderError>(v),
            FieldData::U64(v) => spec_read_u64(val) == Ok::<u64, DecoderError>(v),
            FieldData::Bool(b) => spec_read_bool(val) == Ok::<bool, DecoderError>(b),
            FieldData::Text(s) => spec_string_of(val.bytes@, val.vtype) == Ok::<Seq<char>, i32>(s),
            FieldData::Int { v, min, max } => spec_string_of(val.bytes@, val.vtype) is Ok
                && spec_read_int(val, min, max) == Ok::<int, Seq<char>>(v),
            FieldData::Struct(_) => false,
        }
}

/// Reading the field `name`, expected to hold `d`, from `key` gives `d`
/// back. A structure is found only among the subkeys (where the decoder
/// reads it with a fresh decoder on that subkey), and its own fields read
/// back from it; any other field is found only among the values, and the
/// read of its kind gives it back.
pub open spec fn field_reads_back(key: KeyModel, name: Seq<char>, d: FieldData) -> bool
    decreases d,
{
    match d {
        FieldData::Struct(inner) => {
            &&& key.subkeys.contains_key(name)
            &&& !key.values.contains_key(name)
            &&& fields_read_back(key.subkeys[name], inner)
        },
        _ => {
            &&& key.values.contains_key(name)
            &&& !key.subkeys.contains_key(name)
            &&& value_reads_back(key.values[name], d)
        },
    }
}

/// Every field of a structure reads back from `key`.
pub open spec fn fields_read_back(key: KeyModel, fields: Seq<(Seq<char>, FieldData)>) -> bool
    decreases fields,
{
    if fields.len() == 0 {
        true
    } else {
        fields_read_back(key, fields.drop_last()) && field_reads_back(
            key,
            fields.last().0,
            fields.last().1,
        )
    }
}

/// A name with its ASCII capitals made small: the registry compares names
/// without regard to case.
pub open spec fn fold_case(s: Seq<char>) -> Seq<char> {
    s.map_values(
        |c: char|
            if 65 <= (c as u32) <= 90 {
                ((c as u32) + 32) as char
            } else {
                c
            },
    )
}

/// The structures that the encoder writes and the decoder reads back: field
/// names distinct even without regard to case, texts that do not end with
/// a NUL character (trailing NULs are dropped on reading), integers within
/// the range of their width, and nested structures of the same kind.
pub open spec fn fields_ok(fields: Seq<(Seq<char>, FieldData)>) -> bool
    decreases fields,
{
    if fields.len() == 0 {
        true
    } else {
        &&& fields_ok(fields.drop_last())
        &&& field_ok(fields.last().1)
        &&& forall|i: int|
            0 <= i < fields.len() - 1 ==> fold_case(#[trigger] fields[i].0) != fold_case(
                fields.last().0,
            )
    }
}

/// A field's data is of the kind `fields_ok` describes.
pub open spec fn field_ok(d: FieldData) -> bool
    decreases d,
{
    match d {
        FieldData::Text(s) => !(s.len() > 0 && s.last() == '\0'),
        FieldData::Int { v, min, max } => min < 0 < max && min <= v <= max,
        FieldData::Struct(inner) => fields_ok(inner),
        _ => true,
    }
}

/// The names of a key, as a value or a subkey, are the same in `k1` and `k2`,
/// with the same contents.
pub open spec fn same_entry(k1: KeyModel, k2: KeyModel, n: Seq<char>) -> bool {
    &&& k1.values.contains_key(n) == k2.values.contains_key(n)
    &&& k1.values.contains_key(n) ==> k1.values[n] == k2.values[n]
    &&& k1.subkeys.contains_key(n) == k2.subkeys.contains_key(n)
    &&& k1.subkeys.contains_key(n) ==> k1.subkeys[n] == k2.subkeys[n]
}

proof fn lemma_scalar_reads_back(d: FieldData)
    requires
        !(d is Struct),
        field_ok(d),
    ensures
        value_reads_back(stored_form(d), d),
{
    let stored = stored_form(d);
    assert forall|val: RegValue|
        #![trigger val.bytes@]
        val.bytes@ == stored.0 && val.vtype == stored.1 implies match d {
            FieldData::U32(v) => spec_read_u32(val) == Ok::<u32, DecoderError>(v),
            FieldData::U64(v) => spec_read_u64(val) == Ok::<u64, DecoderError>(v),
            FieldData::Bool(b) => spec_read_bool(val) == Ok::<bool, DecoderError>(b),
            FieldData::Text(s) => spec_string_of(val.bytes@, val.vtype) == Ok::<Seq<char>, i32>(s),
            FieldData::Int { v, min, max } => spec_string_of(val.bytes@, val.vtype) is Ok
                && spec_read_int(val, min, max) == Ok::<int, Seq<char>>(v),
            FieldData::Struct(_) => false,
        } by {
        match d {
            FieldData::U32(v) => law_u32_read_back(v, val),
            FieldData::U64(v) => law_u64_read_back(v, val),
            FieldData::Bool(b) => law_bool_read_back(b, val),
            FieldData::Text(s) => law_str_read_back(s, val),
            FieldData::Int { v, min, max } => law_int_read_back(v, min, max, val),
            FieldData::Struct(_) => {},
        }
    }
}

proof fn lemma_field_reads_back_frame(k1: KeyModel, k2: KeyModel, n: Seq<char>, d: FieldData)
    requires
        same_entry(k1, k2, n),
        field_reads_back(k1, n, d),
    ensures
        field_reads_back(k2, n, d),
{
}

proof fn lemma_fields_read_back_frame(
    k1: KeyModel,
    k2: KeyModel,
    fields: Seq<(Seq<char>, FieldData)>,
)
    requires
        forall|i: int| 0 <= i < fields.len() ==> same_entry(k1, k2, #[trigger] fields[i].0),
        fields_read_back(k1, fields),
    ensures
        fields_read_back(k2, fields),
    decreases fields.len(),
{
    if fields.len() > 0 {
        let init = fields.drop_last();
        assert forall|i: int| 0 <= i < init.len() implies same_entry(k1, k2, #[trigger] init[i].0) by {
            assert(init[i] == fields[i]);
        }
        lemma_fields_read_back_frame(k1, k2, init);
        assert(same_entry(k1, k2, fields[fields.len() - 1].0));
        lemma_field_reads_back_frame(k1, k2, fields.last().0, fields.last().1);
    }
}

/// Names of a well-formed structure are pairwise distinct.
proof fn lemma_names_distinct(fields: Seq<(Seq<char>, FieldData)>)
    requires
        fields_ok(fields),
    ensures
        forall|i: int, j: int|
            0 <= i < j < fields.len() ==> #[trigger] fields[i].0 != #[trigger] fields[j].0,
    decreases fields.len(),
{
    if fields.len() > 0 {
        let init = fields.drop_last();
        lemma_names_distinct(init);
        assert forall|i: int, j: int| 0 <= i < j < fields.len() implies #[trigger] fields[i].0
            != #[trigger] fields[j].0 by {
            if j < fields.len() - 1 {
                assert(init[i] == fields[i] && init[j] == fields[j]);
            } else {
                assert(fold_case(fields[i].0) != fold_case(fields.last().0));
            }
        }
    }
}

proof fn lemma_encode_reads_back(fields: Seq<(Seq<char>, FieldData)>)
    requires
        fields_ok(fields),
    ensures
        fields_read_back(encode_fields(empty_key(), fields), fields),
        forall|n: Seq<char>|
            #[trigger] encode_fields(empty_key(), fields).values.contains_key(n) <==> exists|i: int|
                0 <= i < fields.len() && #[trigger] fields[i].0 == n && !(fields[i].1 is Struct),
        forall|n: Seq<char>|
            #[trigger] encode_fields(empty_key(), fields).subkeys.contains_key(n) <==> exists|i: int|
                0 <= i < fields.len() && #[trigger] fields[i].0 == n && fields[i].1 is Struct,
    decreases fields,
{
    if fields.len() > 0 {
        let init = fields.drop_last();
        let n = fields.last().0;
        let d = fields.last().1;
        let k0 = encode_fields(empty_key(), init);
        let k = encode_fields(empty_key(), fields);
        lemma_encode_reads_back(init);
        lemma_names_distinct(fields);
        assert forall|i: int| 0 <= i < init.len() implies #[trigger] init[i].0 != n by {
            assert(init[i] == fields[i]);
            assert(fields[i].0 != fields[fields.len() - 1].0);
        }
        assert(!k0.values.contains_key(n) && !k0.subkeys.contains_key(n)) by {
            if k0.values.contains_key(n) || k0.subkeys.contains_key(n) {
                let i = choose|i: int| 0 <= i < init.len() && #[trigger] init[i].0 == n;
                assert(init[i].0 != n);
            }
        }
        assert(field_ok(d));
        assert(k == encode_field(k0, n, d));
        if let FieldData::Struct(inner) = d {
            assert(decreases_to!(fields => fields[fields.len() - 1]));
            assert(fields_ok(inner));
            lemma_encode_reads_back(inner);
            assert(k.subkeys[n] == encode_fields(empty_key(), inner));
            assert(k.values == k0.values);
        } else {
            lemma_scalar_reads_back(d);
        }
        assert(field_reads_back(k, n, d));
        assert forall|i: int| 0 <= i < init.len() implies same_entry(k0, k, #[trigger] init[i].0) by {
            assert(init[i].0 != n);
        }
        lemma_fields_read_back_frame(k0, k, init);
        assert forall|m: Seq<char>|
            #[trigger] k.values.contains_key(m) <==> exists|i: int|
                0 <= i < fields.len() && #[trigger] fields[i].0 == m && !(fields[i].1 is Struct) by {
            if k.values.contains_key(m) {
                if m == n && !(d is Struct) {
                    assert(fields[fields.len() - 1].0 == m);
                } else {
                    assert(k0.values.contains_key(m));
                    let i = choose|i: int|
                        0 <= i < init.len() && #[trigger] init[i].0 == m && !(init[i].1 is Struct);
                    assert(fields[i] == init[i]);
                }
            }
            if exists|i: int|
                0 <= i < fields.len() && #[trigger] fields[i].0 == m && !(fields[i].1 is Struct) {
                let i = choose|i: int|
                    0 <= i < fields.len() && #[trigger] fields[i].0 == m && !(fields[i].1 is Struct);
                if i < fields.len() - 1 {
                    assert(init[i] == fields[i]);
                }
            }
        }
        assert forall|m: Seq<char>|
            #[trigger] k.subkeys.contains_key(m) <==> exists|i: int|
                0 <= i < fields.len() && #[trigger] fields[i].0 == m && fields[i].1 is Struct by {
            if k.subkeys.contains_key(m) {
                if m == n && d is Struct {
                    assert(fields[fields.len() - 1].0 == m);
                } else {
                    assert(k0.subkeys.contains_key(m));
                    let i = choose|i: int|
                        0 <= i < init.len() && #[trigger] init[i].0 == m && init[i].1 is Struct;
                    assert(fields[i] == init[i]);
                }
            }
            if exists|i: int|
                0 <= i < fields.len() && #[trigger] fields[i].0 == m && fields[i].1 is Struct {
                let i = choose|i: int|
                    0 <= i < fields.len() && #[trigger] fields[i].0 == m && fields[i].1 is Struct;
                if i < fields.len() - 1 {
                    assert(init[i] == fields[i]);
                }
            }
        }
    }
}

proof fn lemma_fields_read_back_each(key: KeyModel, fields: Seq<(Seq<char>, FieldData)>)
    ensures
        fields_read_back(key, fields) <==> forall|i: int|
            0 <= i < fields.len() ==> field_reads_back(key, #[trigger] fields[i].0, fields[i].1),
    decreases fields.len(),
{
    if fields.len() > 0 {
        let init = fields.drop_last();
        lemma_fields_read_back_each(key, init);
        if forall|i: int|
            0 <= i < fields.len() ==> field_reads_back(key, #[trigger] fields[i].0, fields[i].1) {
            assert forall|i: int| 0 <= i < init.len() implies field_reads_back(
                key,
                #[trigger] init[i].0,
                init[i].1,
            ) by {
                assert(init[i] == fields[i]);
            }
            assert(field_reads_back(key, fields[fields.len() - 1].0, fields[fields.len() - 1].1));
        }
        if fields_read_back(key, fields) {
            assert forall|i: int| 0 <= i < fields.len() implies field_reads_back(
                key,
                #[trigger] fields[i].0,
                fields[i].1,
            ) by {
                if i < fields.len() - 1 {
                    assert(init[i] == fields[i]);
                    assert(field_reads_back(key, init[i].0, init[i].1));
                }
            }
        }
    }
}

/// A structure written field by field into an empty key reads back equal:
/// every field is found under its name, a nested structure as a subkey that
/// reads back in the same way and any other field as a value that the read
/// of its kind gives back as written; the key holds nothing but the fields,
/// and no name is both a value and a subkey. With
/// `law_struct_fields_found_once`, which says that the decoder's
/// enumeration finds each of these names once, a structure decoded from
/// the key has the fields it was encoded with.
pub proof fn law_struct_reads_back(fields: Seq<(Seq<char>, FieldData)>)
    requires
        fields_ok(fields),
    ensures
        forall|i: int|
            0 <= i < fields.len() ==> field_reads_back(
                encode_fields(empty_key(), fields),
                #[trigger] fields[i].0,
                fields[i].1,
            ),
        forall|n: Seq<char>|
            #![trigger encode_fields(empty_key(), fields).values.contains_key(n)]
            #![trigger encode_fields(empty_key(), fields).subkeys.contains_key(n)]
            encode_fields(empty_key(), fields).values.contains_key(n)
                || encode_fields(empty_key(), fields).subkeys.contains_key(n) <==> exists|i: int|
                0 <= i < fields.len() && #[trigger] fields[i].0 == n,
        forall|n: Seq<char>|
            !(#[trigger] encode_fields(empty_key(), fields).values.contains_key(n)
                && encode_fields(empty_key(), fields).subkeys.contains_key(n)),
{
    let k = encode_fields(empty_key(), fields);
    lemma_encode_reads_back(fields);
    lemma_fields_read_back_each(k, fields);
    lemma_names_distinct(fields);
    assert forall|n: Seq<char>|
        #![trigger k.values.contains_key(n)]
        #![trigger k.subkeys.contains_key(n)]
        k.values.contains_key(n) || k.subkeys.contains_key(n) <==> exists|i: int|
            0 <= i < fields.len() && #[trigger] fields[i].0 == n by {
        if exists|i: int| 0 <= i < fields.len() && #[trigger] fields[i].0 == n {
            let i = choose|i: int| 0 <= i < fields.len() && #[trigger] fields[i].0 == n;
            if fields[i].1 is Struct {
                assert(k.subkeys.contains_key(n));
            } else {
                assert(k.values.contains_key(n));
            }
        }
    }
    assert forall|n: Seq<char>| !(#[trigger] k.values.contains_key(n) && k.subkeys.contains_key(n)) by {
        if k.values.contains_key(n) && k.subkeys.contains_key(n) {
            let i = choose|i: int|
                0 <= i < fields.len() && #[trigger] fields[i].0 == n && !(fields[i].1 is Struct);
            let j = choose|j: int|
                0 <= j < fields.len() && #[trigger] fields[j].0 == n && fields[j].1 is Struct;
            if i < j {
                assert(fields[i].0 != fields[j].0);
            } else {
                assert(fields[j].0 != fields[i].0);
            }
        }
    }
}

/// Decoding the key that a structure was written into, the enumeration
/// (whatever order the registry lists the subkeys `ks` and the values `vs`
/// in) finds each field once and nothing else: the first
/// `ks.len() + vs.len()` requests for the next field each find a field's
/// name, the subkeys (the nested structures) before the values, no name
/// twice, and every field among them; every later request finds no more
/// fields. (More than `u32::MAX` subkeys or values are left out: the
/// index would overflow.)
pub proof fn law_struct_fields_found_once(
    fields: Seq<(Seq<char>, FieldData)>,
    ks: Seq<Seq<char>>,
    vs: Seq<Seq<char>>,
    t: nat,
)
    requires
        fields_ok(fields),
        ks.no_duplicates(),
        vs.no_duplicates(),
        forall|n: Seq<char>|
            ks.contains(n) <==> #[trigger] encode_fields(empty_key(), fields).subkeys.contains_key(
                n,
            ),
        forall|n: Seq<char>|
            vs.contains(n) <==> #[trigger] encode_fields(empty_key(), fields).values.contains_key(n),
        ks.len() <= u32::MAX,
        vs.len() <= u32::MAX,
    ensures
        spec_next_keys(ks, vs, DecoderState::EnumeratingKeys(0), t).1.len() == t,
        forall|j: int|
            0 <= j < t && j < ks.len() + vs.len() ==> {
                let found = #[trigger] spec_next_keys(ks, vs, DecoderState::EnumeratingKeys(0), t).1[j];
                &&& found is Some
                &&& exists|i: int| 0 <= i < fields.len() && found == Some(#[trigger] fields[i].0)
                &&& j < ks.len() ==> encode_fields(empty_key(), fields).subkeys.contains_key(
                    found->0,
                )
                &&& j >= ks.len() ==> encode_fields(empty_key(), fields).values.contains_key(
                    found->0,
                )
            },
        forall|j: int|
            ks.len() + vs.len() <= j < t ==> #[trigger] spec_next_keys(
                ks,
                vs,
                DecoderState::EnumeratingKeys(0),
                t,
            ).1[j] is None,
        forall|j1: int, j2: int|
            0 <= j1 < j2 < t && j2 < ks.len() + vs.len() ==> #[trigger] spec_next_keys(
                ks,
                vs,
                DecoderState::EnumeratingKeys(0),
                t,
            ).1[j1] != #[trigger] spec_next_keys(ks, vs, DecoderState::EnumeratingKeys(0), t).1[j2],
        t >= ks.len() + vs.len() ==> forall|i: int|
            0 <= i < fields.len() ==> exists|j: int|
                0 <= j < ks.len() + vs.len() && #[trigger] spec_next_keys(
                    ks,
                    vs,
                    DecoderState::EnumeratingKeys(0),
                    t,
                ).1[j] == Some(#[trigger] fields[i].0),
{
    let k = encode_fields(empty_key(), fields);
    let found = spec_next_keys(ks, vs, DecoderState::EnumeratingKeys(0), t).1;
    let total = ks.len() + vs.len();
    law_fields_enumerated_once_in_order(ks, vs, t);
    law_struct_reads_back(fields);
    assert forall|j: int| 0 <= j < t && j < total implies {
        let f = #[trigger] found[j];
        &&& f is Some
        &&& exists|i: int| 0 <= i < fields.len() && f == Some(#[trigger] fields[i].0)
        &&& j < ks.len() ==> k.subkeys.contains_key(f->0)
        &&& j >= ks.len() ==> k.values.contains_key(f->0)
    } by {
        assert(found[j] == spec_field_at(ks, vs, j));
        let n = if j < ks.len() {
            ks[j]
        } else {
            vs[j - ks.len()]
        };
        if j < ks.len() {
            assert(ks.contains(n));
            assert(k.subkeys.contains_key(n));
        } else {
            assert(vs.contains(n));
            assert(k.values.contains_key(n));
        }
        assert(k.values.contains_key(n) || k.subkeys.contains_key(n));
    }
    assert forall|j1: int, j2: int| 0 <= j1 < j2 < t && j2 < total implies #[trigger] found[j1]
        != #[trigger] found[j2] by {
        assert(found[j1] == spec_field_at(ks, vs, j1));
        assert(found[j2] == spec_field_at(ks, vs, j2));
        if j2 < ks.len() {
        } else if j1 >= ks.len() {
        } else {
            let n = ks[j1];
            if n == vs[j2 - ks.len()] {
                assert(ks.contains(n));
                assert(vs.contains(n));
                assert(k.values.contains_key(n) && k.subkeys.contains_key(n));
            }
        }
    }
    if t >= total {
        assert forall|i: int| 0 <= i < fields.len() implies exists|j: int|
            0 <= j < total && #[trigger] found[j] == Some(#[trigger] fields[i].0) by {
            let n = fields[i].0;
            assert(k.values.contains_key(n) || k.subkeys.contains_key(n));
            if k.subkeys.contains_key(n) {
                assert(ks.contains(n));
                let p = choose|p: int| 0 <= p < ks.len() && ks[p] == n;
                assert(found[p] == spec_field_at(ks, vs, p));
            } else {
                assert(vs.contains(n));
                let p = choose|p: int| 0 <= p < vs.len() && vs[p] == n;
                assert(found[ks.len() + p] == spec_field_at(ks, vs, ks.len() + p));
            }
        }
    }
}

} // verus!
