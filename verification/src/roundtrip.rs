//! What the decoder reads back of what the encoder wrote, and how field
//! names and nested structures pair up between the two.

use vstd::prelude::*;

use crate::decoder::{spec_read_bool, spec_read_int, spec_read_u32, spec_read_u64};
use crate::encoder::{
    nesting_depth, spec_emit, spec_end_keys, spec_run_keys, well_nested, EncoderError,
    EncoderState, KeyStep,
};
use crate::text::{int_text, law_int_text_roundtrip, nat_digits};
use crate::value::{
    law_dword_roundtrip, law_qword_roundtrip, law_string_roundtrip, spec_dword_value,
    spec_qword_value, spec_string_of, spec_string_value, RegType, RegValue,
};

verus! {

/// A `u32` (and so a `u8` or `u16`, which are written as `u32`) is read back
/// as written.
pub proof fn law_u32_read_back(v: u32, val: RegValue)
    requires
        (val.bytes@, val.vtype) == spec_dword_value(v),
    ensures
        spec_read_u32(val) == Ok::<u32, crate::decoder::DecoderError>(v),
{
    law_dword_roundtrip(v);
}

/// A `u64` is read back as written.
pub proof fn law_u64_read_back(v: u64, val: RegValue)
    requires
        (val.bytes@, val.vtype) == spec_qword_value(v),
    ensures
        spec_read_u64(val) == Ok::<u64, crate::decoder::DecoderError>(v),
{
    law_qword_roundtrip(v);
}

/// A `bool` is read back as written.
pub proof fn law_bool_read_back(b: bool, val: RegValue)
    requires
        (val.bytes@, val.vtype) == spec_dword_value(
            if b {
                1
            } else {
                0
            },
        ),
    ensures
        spec_read_bool(val) == Ok::<bool, crate::decoder::DecoderError>(b),
{
    law_dword_roundtrip(
        if b {
            1
        } else {
            0
        },
    );
}

/// A text that does not end with a NUL character is read back as written.
pub proof fn law_str_read_back(s: Seq<char>, val: RegValue)
    requires
        (val.bytes@, val.vtype) == spec_string_value(s),
        !(s.len() > 0 && s.last() == '\0'),
    ensures
        spec_string_of(val.bytes@, val.vtype) == Ok::<Seq<char>, i32>(s),
{
    law_string_roundtrip(s);
}

proof fn lemma_int_text_last(v: int)
    ensures
        int_text(v).len() > 0 && int_text(v).last() != '\0',
{
    let m: nat = if v < 0 {
        (-v) as nat
    } else {
        v as nat
    };
    lemma_nat_digits_last(m);
}

proof fn lemma_nat_digits_last(n: nat)
    ensures
        nat_digits(n).len() > 0 && nat_digits(n).last() != '\0',
    decreases n,
{
    let d = n % 10;
    assert((((48 + d) as u32) as char) as u32 == 48 + d);
    if n >= 10 {
        lemma_nat_digits_last(n / 10);
    }
}

/// A signed integer, written as its decimal text, is read back as written by
/// a read of any width that holds it (`[min, max]`): an `i8` written is
/// read back by an `i8` read, and so on for `i16`, `i32` and `i64`.
pub proof fn law_int_read_back(v: int, min: int, max: int, val: RegValue)
    requires
        min < 0 < max,
        min <= v <= max,
        (val.bytes@, val.vtype) == spec_string_value(int_text(v)),
    ensures
        spec_string_of(val.bytes@, val.vtype) == Ok::<Seq<char>, i32>(int_text(v)),
        spec_read_int(val, min, max) == Ok::<int, Seq<char>>(v),
{
    lemma_int_text_last(v);
    let t = int_text(v);
    if v < 0 {
        assert(t.last() == nat_digits((-v) as nat).last());
    }
    law_string_roundtrip(t);
    law_int_text_roundtrip(v, min, max);
}

/// The field name set for a field names the next value written, and only
/// that one: a second value with no new field name is refused.
pub proof fn law_field_names_one_write(
    key: String,
    first: (Seq<u8>, RegType),
    second: (Seq<u8>, RegType),
)
    ensures
        spec_emit(EncoderState::NextKey(key), first) == Ok::<
            (Seq<char>, Seq<u8>, RegType),
            EncoderError,
        >((key@, first.0, first.1)),
        spec_emit(EncoderState::Start, second) == Err::<
            (Seq<char>, Seq<u8>, RegType),
            EncoderError,
        >(EncoderError::NoFieldName),
{
}

/// Ending a nested structure closes exactly the subkey that was opened for
/// it: the stack of open keys is as before.
pub proof fn law_nested_struct_balanced<K>(keys: Seq<K>, subkey: K)
    ensures
        spec_end_keys(keys.push(subkey), true) == keys,
{
    assert(keys.push(subkey).drop_last() =~= keys);
}

proof fn lemma_run_keys_prefix<K>(keys: Seq<K>, steps: Seq<KeyStep<K>>)
    requires
        forall|p: int| 0 <= p <= steps.len() ==> nesting_depth(#[trigger] steps.take(p)) >= 0,
    ensures
        spec_run_keys(keys, steps).len() == keys.len() + nesting_depth(steps),
        spec_run_keys(keys, steps).take(keys.len() as int) == keys,
    decreases steps.len(),
{
    if steps.len() > 0 {
        let init = steps.drop_last();
        assert forall|p: int| 0 <= p <= init.len() implies nesting_depth(#[trigger] init.take(p))
            >= 0 by {
            assert(init.take(p) =~= steps.take(p));
        }
        lemma_run_keys_prefix(keys, init);
        assert(steps.take(steps.len() as int) =~= steps);
        let before = spec_run_keys(keys, init);
        match steps.last() {
            KeyStep::Open(k) => {
                assert(before.push(k).take(keys.len() as int) =~= before.take(keys.len() as int));
            },
            KeyStep::Close => {
                assert(before.len() >= keys.len() + 1);
                assert(before.drop_last().take(keys.len() as int) =~= before.take(
                    keys.len() as int,
                ));
            },
            _ => {},
        }
    } else {
        assert(keys.take(keys.len() as int) =~= keys);
    }
}

/// Naming fields, writing values and writing nested structures, each ended,
/// leaves the stack of open keys as it was: every value and subkey after
/// them goes to the same key as before.
pub proof fn law_fields_keep_key_stack<K>(keys: Seq<K>, steps: Seq<KeyStep<K>>)
    requires
        well_nested(steps),
    ensures
        spec_run_keys(keys, steps) == keys,
{
    lemma_run_keys_prefix(keys, steps);
    assert(spec_run_keys(keys, steps) =~= spec_run_keys(keys, steps).take(keys.len() as int));
}

/// A nested structure opened in a subkey, whatever fields it writes, closes
/// that subkey when it ends: the stack of open keys is as before it was
/// opened, so its sibling fields go to the same key again.
pub proof fn law_nested_struct_restores_stack<K>(keys: Seq<K>, subkey: K, body: Seq<KeyStep<K>>)
    requires
        well_nested(body),
    ensures
        spec_end_keys(spec_run_keys(keys.push(subkey), body), true) == keys,
{
    law_fields_keep_key_stack(keys.push(subkey), body);
    assert(keys.push(subkey).drop_last() =~= keys);
}

/// The structure being encoded is written into the root key, and its end
/// closes the root key too, whatever fields it writes.
pub proof fn law_root_struct_closes_root<K>(root: K, body: Seq<KeyStep<K>>)
    requires
        well_nested(body),
    ensures
        spec_end_keys(spec_run_keys(seq![root], body), true) == Seq::<K>::empty(),
{
    law_fields_keep_key_stack(seq![root], body);
    assert(seq![root].drop_last() =~= Seq::<K>::empty());
}

} // verus!
