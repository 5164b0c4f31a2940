//! The decisions of the registry serializer. A structure is written as a
//! registry key: each field names either a value of that key or, for a
//! nested structure, a subkey. The encoder keeps the stack of open keys and
//! the pending field name; writing a value and creating a subkey are done by
//! the caller on the key that `top_key` gives.

use vstd::prelude::*;

use crate::text::{i64_text, int_text};
use crate::value::{
    dword_value, qword_value, spec_dword_value, spec_qword_value, spec_string_value, string_value,
    RegType, RegValue,
};

verus! {

/// Why the encoder refuses a step.
#[derive(Debug, Clone, PartialEq, Eq)]
pub enum EncoderError {
    /// The serde method named here has no registry form.
    EncodeNotImplemented(String),
    /// A message raised by a `Serialize` impl.
    SerializerError(String),
    /// A value came with no field to name it.
    NoFieldName,
}

impl EncoderError {
    /// The error that a `Serialize` impl raises with a message.
    pub fn custom(msg: &str) -> (r: EncoderError)
        ensures
            r matches EncoderError::SerializerError(m) && m@ == msg@,
    {
        EncoderError::SerializerError(msg.to_owned())
    }
}

/// Whether a field name is pending.
#[derive(Debug, Clone, PartialEq, Eq)]
pub enum EncoderState {
    Start,
    NextKey(String),
}

/// A value to store: its name, and the value.
#[derive(Debug, Clone, PartialEq, Eq)]
pub struct ValueWrite {
    pub name: String,
    pub value: RegValue,
}

/// The open registry keys, innermost last, and the pending field name.
pub struct Encoder<K> {
    pub keys: Vec<K>,
    pub state: EncoderState,
}

/// What opening a structure asks for.
pub enum StructOpening {
    /// The structure is written into the innermost open key.
    Root(RegSerializeStructStub),
    /// A subkey of this name is to be created under the innermost open key,
    /// and handed to `Encoder::push_subkey`.
    Subkey(String),
}

/// The stored form that a write should have: its name and its value, as
/// plain sequences.
pub open spec fn write_view(w: ValueWrite) -> (Seq<char>, Seq<u8>, RegType) {
    (w.name@, w.value.bytes@, w.value.vtype)
}

/// The outcome of writing a value whose stored form is `stored` when the
/// encoder is in state `state`: the pending field name names it; with no
/// pending name it is refused.
pub open spec fn spec_emit(state: EncoderState, stored: (Seq<u8>, RegType)) -> Result<
    (Seq<char>, Seq<u8>, RegType),
    EncoderError,
> {
    match state {
        EncoderState::NextKey(n) => Ok((n@, stored.0, stored.1)),
        EncoderState::Start => Err(EncoderError::NoFieldName),
    }
}

/// The result of a write, as plain sequences.
pub open spec fn result_view(r: Result<ValueWrite, EncoderError>) -> Result<
    (Seq<char>, Seq<u8>, RegType),
    EncoderError,
> {
    match r {
        Ok(w) => Ok(write_view(w)),
        Err(e) => Err(e),
    }
}

/// The error that names a serde method with no registry form.
pub open spec fn is_not_implemented(e: EncoderError, name: Seq<char>) -> bool {
    e matches EncoderError::EncodeNotImplemented(m) && m@ == name
}

/// The key stack after a structure ends: a structure opened as `is_root`
/// closes the innermost key.
pub open spec fn spec_end_keys<K>(keys: Seq<K>, is_root: bool) -> Seq<K> {
    if is_root && keys.len() > 0 {
        keys.drop_last()
    } else {
        keys
    }
}

/// A step of writing a structure, as it bears on the stack of open keys:
/// naming a field (`RegSerializeStructStub::serialize_field`), writing a
/// value (any `serialize_*` that stores one), opening a nested structure in
/// a new subkey (`serialize_struct` then `push_subkey`), or ending a
/// structure (`RegSerializeStructStub::end` on a stub from either).
pub enum KeyStep<K> {
    Field,
    Write,
    Open(K),
    Close,
}

/// The key stack after one step, as the steps' contracts state it.
pub open spec fn spec_step_keys<K>(keys: Seq<K>, step: KeyStep<K>) -> Seq<K> {
    match step {
        KeyStep::Field => keys,
        KeyStep::Write => keys,
        KeyStep::Open(k) => keys.push(k),
        KeyStep::Close => spec_end_keys(keys, true),
    }
}

/// The key stack after a sequence of steps.
pub open spec fn spec_run_keys<K>(keys: Seq<K>, steps: Seq<KeyStep<K>>) -> Seq<K>
    decreases steps.len(),
{
    if steps.len() == 0 {
        keys
    } else {
        spec_step_keys(spec_run_keys(keys, steps.drop_last()), steps.last())
    }
}

/// How many more structures the steps open than they end.
pub open spec fn nesting_depth<K>(steps: Seq<KeyStep<K>>) -> int
    decreases steps.len(),
{
    if steps.len() == 0 {
        0
    } else {
        nesting_depth(steps.drop_last()) + match steps.last() {
            KeyStep::Open(_) => 1int,
            KeyStep::Close => -1int,
            _ => 0int,
        }
    }
}

/// The steps end every nested structure they open, and no other.
pub open spec fn well_nested<K>(steps: Seq<KeyStep<K>>) -> bool {
    &&& forall|p: int| 0 <= p <= steps.len() ==> nesting_depth(#[trigger] steps.take(p)) >= 0
    &&& nesting_depth(steps) == 0
}

fn not_implemented(name: &str) -> (e: EncoderError)
    ensures
        is_not_implemented(e, name@),
{
    EncoderError::EncodeNotImplemented(name.to_owned())
}

impl<K> Encoder<K> {
    /// An encoder that writes into `root`.
    pub fn new(root: K) -> (r: Encoder<K>)
        ensures
            r.keys@ == seq![root],
            r.state == EncoderState::Start,
    {
        let mut keys: Vec<K> = Vec::new();
        keys.push(root);
        Encoder { keys, state: EncoderState::Start }
    }

    /// The innermost open key, where the next value or subkey goes.
    pub fn top_key(&self) -> (r: &K)
        requires
            self.keys@.len() > 0,
        ensures
            *r == self.keys@.last(),
    {
        &self.keys[self.keys.len() - 1]
    }

    /// Writes a value under the pending field name, which is consumed.
    fn emit(&mut self, value: RegValue) -> (r: Result<ValueWrite, EncoderError>)
        ensures
            final(self).keys@ == old(self).keys@,
            final(self).state == EncoderState::Start,
            result_view(r) == spec_emit(old(self).state, (value.bytes@, value.vtype)),
    {
        let mut state = EncoderState::Start;
        std::mem::swap(&mut state, &mut self.state);
        match state {
            EncoderState::NextKey(name) => Ok(ValueWrite { name, value }),
            EncoderState::Start => Err(EncoderError::NoFieldName),
        }
    }

    /// A `bool` is written as the `u32` 1 or 0.
    pub fn serialize_bool(&mut self, v: bool) -> (r: Result<ValueWrite, EncoderError>)
        ensures
            final(self).keys@ == old(self).keys@,
            final(self).state == EncoderState::Start,
            result_view(r) == spec_emit(
                old(self).state,
                spec_dword_value(
                    if v {
                        1
                    } else {
                        0
                    },
                ),
            ),
    {
        self.serialize_u32(if v {
            1
        } else {
            0
        })
    }

    /// An `i8` is written as the `i64` of the same value.
    pub fn serialize_i8(&mut self, v: i8) -> (r: Result<ValueWrite, EncoderError>)
        ensures
            final(self).keys@ == old(self).keys@,
            final(self).state == EncoderState::Start,
            result_view(r) == spec_emit(old(self).state, spec_string_value(int_text(v as int))),
    {
        self.serialize_i64(v as i64)
    }

    /// An `i16` is written as the `i64` of the same value.
    pub fn serialize_i16(&mut self, v: i16) -> (r: Result<ValueWrite, EncoderError>)
        ensures
            final(self).keys@ == old(self).keys@,
            final(self).state == EncoderState::Start,
            result_view(r) == spec_emit(old(self).state, spec_string_value(int_text(v as int))),
    {
        self.serialize_i64(v as i64)
    }

    /// An `i32` is written as the `i64` of the same value.
    pub fn serialize_i32(&mut self, v: i32) -> (r: Result<ValueWrite, EncoderError>)
        ensures
            final(self).keys@ == old(self).keys@,
            final(self).state == EncoderState::Start,
            result_view(r) == spec_emit(old(self).state, spec_string_value(int_text(v as int))),
    {
        self.serialize_i64(v as i64)
    }

    /// An `i64` is written as its decimal text, a `REG_SZ`.
    pub fn serialize_i64(&mut self, v: i64) -> (r: Result<ValueWrite, EncoderError>)
        ensures
            final(self).keys@ == old(self).keys@,
            final(self).state == EncoderState::Start,
            result_view(r) == spec_emit(old(self).state, spec_string_value(int_text(v as int))),
    {
        let s = i64_text(v);
        self.emit(string_value(s.as_str()))
    }

    /// A `u8` is written as the `u32` of the same value.
    pub fn serialize_u8(&mut self, v: u8) -> (r: Result<ValueWrite, EncoderError>)
        ensures
            final(self).keys@ == old(self).keys@,
            final(self).state == EncoderState::Start,
            result_view(r) == spec_emit(old(self).state, spec_dword_value(v as u32)),
    {
        self.serialize_u32(v as u32)
    }

    /// A `u16` is written as the `u32` of the same value.
    pub fn serialize_u16(&mut self, v: u16) -> (r: Result<ValueWrite, EncoderError>)
        ensures
            final(self).keys@ == old(self).keys@,
            final(self).state == EncoderState::Start,
            result_view(r) == spec_emit(old(self).state, spec_dword_value(v as u32)),
    {
        self.serialize_u32(v as u32)
    }

    /// A `u32` is written as a `REG_DWORD`.
    pub fn serialize_u32(&mut self, v: u32) -> (r: Result<ValueWrite, EncoderError>)
        ensures
            final(self).keys@ == old(self).keys@,
            final(self).state == EncoderState::Start,
            result_view(r) == spec_emit(old(self).state, spec_dword_value(v)),
    {
        self.emit(dword_value(v))
    }

    /// A `u64` is written as a `REG_QWORD`.
    pub fn serialize_u64(&mut self, v: u64) -> (r: Result<ValueWrite, EncoderError>)
        ensures
            final(self).keys@ == old(self).keys@,
            final(self).state == EncoderState::Start,
            result_view(r) == spec_emit(old(self).state, spec_qword_value(v)),
    {
        self.emit(qword_value(v))
    }

    /// A text is written as a `REG_SZ`.
    pub fn serialize_str(&mut self, v: &str) -> (r: Result<ValueWrite, EncoderError>)
        ensures
            final(self).keys@ == old(self).keys@,
            final(self).state == EncoderState::Start,
            result_view(r) == spec_emit(old(self).state, spec_string_value(v@)),
    {
        self.emit(string_value(v))
    }

    /// `f32` has no registry form.
    pub fn serialize_f32(&self) -> (r: Result<(), EncoderError>)
        ensures
            r matches Err(e) && is_not_implemented(e, "serialize_f32"@),
    {
        Err(not_implemented("serialize_f32"))
    }

    /// `f64` has no registry form.
    pub fn serialize_f64(&self) -> (r: Result<(), EncoderError>)
        ensures
            r matches Err(e) && is_not_implemented(e, "serialize_f64"@),
    {
        Err(not_implemented("serialize_f64"))
    }

    /// `char` has no registry form.
    pub fn serialize_char(&self, v: char) -> (r: Result<(), EncoderError>)
        ensures
            r matches Err(e) && is_not_implemented(e, "serialize_char"@),
    {
        Err(not_implemented("serialize_char"))
    }

    /// Byte strings have no registry form.
    pub fn serialize_bytes(&self, v: &[u8]) -> (r: Result<(), EncoderError>)
        ensures
            r matches Err(e) && is_not_implemented(e, "serialize_bytes"@),
    {
        Err(not_implemented("serialize_bytes"))
    }

    /// `None` has no registry form.
    pub fn serialize_none(&self) -> (r: Result<(), EncoderError>)
        ensures
            r matches Err(e) && is_not_implemented(e, "serialize_none"@),
    {
        Err(not_implemented("serialize_none"))
    }

    /// `Some` has no registry form.
    pub fn serialize_some(&self) -> (r: Result<(), EncoderError>)
        ensures
            r matches Err(e) && is_not_implemented(e, "serialize_some"@),
    {
        Err(not_implemented("serialize_some"))
    }

    /// `()` has no registry form.
    pub fn serialize_unit(&self) -> (r: Result<(), EncoderError>)
        ensures
            r matches Err(e) && is_not_implemented(e, "serialize_unit"@),
    {
        Err(not_implemented("serialize_unit"))
    }

    /// Unit structures have no registry form.
    pub fn serialize_unit_struct(&self, name: &str) -> (r: Result<(), EncoderError>)
        ensures
            r matches Err(e) && is_not_implemented(e, "serialize_unit_struct"@),
    {
        Err(not_implemented("serialize_unit_struct"))
    }

    /// Unit variants have no registry form.
    pub fn serialize_unit_variant(&self, name: &str, variant_index: u32, variant: &str) -> (r:
        Result<(), EncoderError>)
        ensures
            r matches Err(e) && is_not_implemented(e, "serialize_unit_variant"@),
    {
        Err(not_implemented("serialize_unit_variant"))
    }

    /// Newtype structures have no registry form.
    pub fn serialize_newtype_struct(&self, name: &str) -> (r: Result<(), EncoderError>)
        ensures
            r matches Err(e) && is_not_implemented(e, "serialize_newtype_struct"@),
    {
        Err(not_implemented("serialize_newtype_struct"))
    }

    /// Newtype variants have no registry form.
    pub fn serialize_newtype_variant(
        &self,
        name: &str,
        variant_index: u32,
        variant: &str,
    ) -> (r: Result<(), EncoderError>)
        ensures
            r matches Err(e) && is_not_implemented(e, "serialize_newtype_variant"@),
    {
        Err(not_implemented("serialize_newtype_variant"))
    }

    /// Sequences have no registry form.
    pub fn serialize_seq(&self, len: Option<usize>) -> (r: Result<
        RegSerializeSeqStub,
        EncoderError,
    >)
        ensures
            r matches Err(e) && is_not_implemented(e, "serialize_seq"@),
    {
        Err(not_implemented("serialize_seq"))
    }

    /// Tuples have no registry form.
    pub fn serialize_tuple(&self, len: usize) -> (r: Result<RegSerializeTupleStub, EncoderError>)
        ensures
            r matches Err(e) && is_not_implemented(e, "serialize_tuple"@),
    {
        Err(not_implemented("serialize_tuple"))
    }

    /// Tuple structures have no registry form.
    pub fn serialize_tuple_struct(&self, name: &str, len: usize) -> (r: Result<
        RegSerializeTupleStructStub,
        EncoderError,
    >)
        ensures
            r matches Err(e) && is_not_implemented(e, "serialize_tuple_struct"@),
    {
        Err(not_implemented("serialize_tuple_struct"))
    }

    /// Tuple variants have no registry form.
    pub fn serialize_tuple_variant(
        &self,
        name: &str,
        variant_index: u32,
        variant: &str,
        len: usize,
    ) -> (r: Result<RegSerializeTupleVariantStub, EncoderError>)
        ensures
            r matches Err(e) && is_not_implemented(e, "serialize_tuple_variant"@),
    {
        Err(not_implemented("serialize_tuple_variant"))
    }

    /// Maps are accepted; each of their entries is refused.
    pub fn serialize_map(&self, len: Option<usize>) -> (r: Result<RegCompound, EncoderError>)
        ensures
            r is Ok,
    {
        Ok(RegCompound {  })
    }

    /// Opens a structure. With no pending field name it is the structure
    /// being encoded, written into the innermost open key; under a pending
    /// field name it is a nested structure, written into a subkey of that
    /// name. The pending name is consumed either way.
    pub fn serialize_struct(&mut self, name: &str, len: usize) -> (r: StructOpening)
        ensures
            final(self).keys@ == old(self).keys@,
            final(self).state == EncoderState::Start,
            match old(self).state {
                EncoderState::Start => r matches StructOpening::Root(stub) && stub.is_root,
                EncoderState::NextKey(n) => r matches StructOpening::Subkey(m) && m@ == n@,
            },
    {
        let mut state = EncoderState::Start;
        std::mem::swap(&mut state, &mut self.state);
        match state {
            EncoderState::Start => StructOpening::Root(RegSerializeStructStub { is_root: true }),
            EncoderState::NextKey(name) => StructOpening::Subkey(name),
        }
    }

    /// Enters the subkey created for a nested structure.
    pub fn push_subkey(&mut self, key: K) -> (r: RegSerializeStructStub)
        ensures
            final(self).keys@ == old(self).keys@.push(key),
            final(self).state == old(self).state,
            r.is_root,
    {
        self.keys.push(key);
        RegSerializeStructStub { is_root: true }
    }

    /// Struct variants have no registry form.
    pub fn serialize_struct_variant(
        &self,
        name: &str,
        variant_index: u32,
        variant: &str,
        len: usize,
    ) -> (r: Result<RegSerializeStructVariantStub, EncoderError>)
        ensures
            r matches Err(e) && is_not_implemented(e, "serialize_struct_variant"@),
    {
        Err(not_implemented("serialize_struct_variant"))
    }
}

/// The elements of a sequence (never opened: sequences are refused).
pub struct RegSerializeSeqStub {}

impl RegSerializeSeqStub {
    pub fn serialize_element(&mut self) -> (r: Result<(), EncoderError>)
        ensures
            r matches Err(e) && is_not_implemented(e, "SerializeSeq::serialize_element"@),
    {
        Err(not_implemented("SerializeSeq::serialize_element"))
    }

    pub fn end(self) -> (r: Result<(), EncoderError>)
        ensures
            r matches Err(e) && is_not_implemented(e, "SerializeSeq::end"@),
    {
        Err(not_implemented("SerializeSeq::end"))
    }
}

/// The elements of a tuple (never opened: tuples are refused).
pub struct RegSerializeTupleStub {}

impl RegSerializeTupleStub {
    pub fn serialize_element(&mut self) -> (r: Result<(), EncoderError>)
        ensures
            r matches Err(e) && is_not_implemented(e, "SerializeTuple::serialize_element"@),
    {
        Err(not_implemented("SerializeTuple::serialize_element"))
    }

    pub fn end(self) -> (r: Result<(), EncoderError>)
        ensures
            r matches Err(e) && is_not_implemented(e, "SerializeTuple::end"@),
    {
        Err(not_implemented("SerializeTuple::end"))
    }
}

/// The fields of a tuple structure (never opened: they are refused).
pub struct RegSerializeTupleStructStub {}

impl RegSerializeTupleStructStub {
    pub fn serialize_field(&mut self) -> (r: Result<(), EncoderError>)
        ensures
            r matches Err(e) && is_not_implemented(e, "SerializeTupleStruct::serialize_field"@),
    {
        Err(not_implemented("SerializeTupleStruct::serialize_field"))
    }

    pub fn end(self) -> (r: Result<(), EncoderError>)
        ensures
            r matches Err(e) && is_not_implemented(e, "SerializeTupleStruct::end"@),
    {
        Err(not_implemented("SerializeTupleStruct::end"))
    }
}

/// The fields of a tuple variant (never opened: they are refused).
pub struct RegSerializeTupleVariantStub {}

impl RegSerializeTupleVariantStub {
    pub fn serialize_field(&mut self) -> (r: Result<(), EncoderError>)
        ensures
            r matches Err(e) && is_not_implemented(e, "SerializeTupleVariant::serialize_field"@),
    {
        Err(not_implemented("SerializeTupleVariant::serialize_field"))
    }

    pub fn end(self) -> (r: Result<(), EncoderError>)
        ensures
            r matches Err(e) && is_not_implemented(e, "SerializeTupleVariant::end"@),
    {
        Err(not_implemented("SerializeTupleVariant::end"))
    }
}

/// The entries of a map: each is refused.
pub struct RegCompound {}

impl RegCompound {
    pub fn serialize_key(&mut self) -> (r: Result<(), EncoderError>)
        ensures
            r matches Err(e) && is_not_implemented(e, "SerializeMap::serialize_key"@),
    {
        Err(not_implemented("SerializeMap::serialize_key"))
    }

    pub fn serialize_value(&mut self) -> (r: Result<(), EncoderError>)
        ensures
            r matches Err(e) && is_not_implemented(e, "SerializeMap::serialize_value"@),
    {
        Err(not_implemented("SerializeMap::serialize_value"))
    }

    pub fn end(self) -> (r: Result<(), EncoderError>)
        ensures
            r matches Err(e) && is_not_implemented(e, "SerializeMap::end"@),
    {
        Err(not_implemented("SerializeMap::end"))
    }
}

/// The fields of a structure being written into a key.
pub struct RegSerializeStructStub {
    pub is_root: bool,
}

impl RegSerializeStructStub {
    /// Names the next value (or nested structure) after the field `key`.
    pub fn serialize_field<K>(&mut self, enc: &mut Encoder<K>, key: &str)
        ensures
            final(enc).keys@ == old(enc).keys@,
            final(enc).state matches EncoderState::NextKey(n) && n@ == key@,
            *final(self) == *old(self),
    {
        enc.state = EncoderState::NextKey(key.to_owned());
    }

    /// Ends the structure; a structure written into its own key closes that key.
    pub fn end<K>(self, enc: &mut Encoder<K>) -> (r: Result<(), EncoderError>)
        ensures
            r is Ok,
            final(enc).keys@ == spec_end_keys(old(enc).keys@, self.is_root),
            final(enc).state == old(enc).state,
    {
        if self.is_root {
            let _ = enc.keys.pop();
        }
        Ok(())
    }
}

/// The fields of a struct variant (never opened: they are refused).
pub struct RegSerializeStructVariantStub {}

impl RegSerializeStructVariantStub {
    pub fn serialize_field(&mut self) -> (r: Result<(), EncoderError>)
        ensures
            r matches Err(e) && is_not_implemented(e, "SerializeStructVariant::serialize_field"@),
    {
        Err(not_implemented("SerializeStructVariant::serialize_field"))
    }

    pub fn end(self) -> (r: Result<(), EncoderError>)
        ensures
            r matches Err(e) && is_not_implemented(e, "SerializeStructVariant::end"@),
    {
        Err(not_implemented("SerializeStructVariant::end"))
    }
}

} // verus!
