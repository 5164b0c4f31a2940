//! The decisions of the registry deserializer. A key is read as a structure
//! whose fields are first its subkeys (nested structures) and then its
//! values. The decoder keeps the enumeration position and the name of the
//! current field; enumerating and reading the key are done by the caller,
//! which hands the results to the functions here.

use vstd::prelude::*;

use crate::text::{parse_i16, parse_i32, parse_i64, parse_i8, spec_error_text, spec_parse_int, IntErrorKind};
use crate::value::{
    is_string_type, law_dword_read, spec_string_of, spec_u32_of, spec_u64_of, string_from_value,
    u32_from_value, u64_from_value, RegType, RegValue,
};

verus! {

/// Why the decoder refuses a step.
#[derive(Debug, Clone, PartialEq, Eq)]
pub enum DecoderError {
    /// The serde method named here has no registry form.
    DecodeNotImplemented(String),
    /// A message raised by a `Deserialize` impl.
    DeserializerError(String),
    /// The registry refused the read with this Windows error code.
    IoError(i32),
    /// A text value is not a number of the requested type; the message is
    /// the `Debug` text of Rust's `ParseIntError`.
    ParseError(String),
    /// A value was asked for with no current field.
    NoFieldName,
}

impl DecoderError {
    /// The error that a `Deserialize` impl raises with a message.
    pub fn custom(msg: &str) -> (r: DecoderError)
        ensures
            r matches DecoderError::DeserializerError(m) && m@ == msg@,
    {
        DecoderError::DeserializerError(msg.to_owned())
    }
}

/// Where the enumeration of a key stands: at this index of its subkeys, or
/// at this index of its values.
#[derive(Debug, Clone, Copy, PartialEq, Eq, Structural)]
pub enum DecoderState {
    EnumeratingKeys(u32),
    EnumeratingValues(u32),
}

/// The reading position in one key: the enumeration state and the name of
/// the current field.
pub struct Decoder {
    pub f_name: Option<String>,
    pub state: DecoderState,
}

/// What the caller must enumerate next: the subkey or the value at this index.
#[derive(Debug, Clone, Copy, PartialEq, Eq, Structural)]
pub enum EnumRequest {
    Key(u32),
    Value(u32),
}

/// Where the value of the current field is to be read from.
#[derive(Debug, Clone, PartialEq, Eq)]
pub enum ValueSource {
    /// A subkey of this name, read by a fresh decoder.
    Subkey(String),
    /// The current key, by this decoder.
    CurrentKey,
}

/// A value read without a requested type.
#[derive(Debug, Clone, PartialEq, Eq)]
pub enum AnyValue {
    Str(String),
    U32(u32),
    U64(u64),
}

/// The name of the current field, as a plain sequence.
pub open spec fn name_view(n: Option<String>) -> Option<Seq<char>> {
    match n {
        Some(s) => Some(s@),
        None => None,
    }
}

/// The error that names a serde method with no registry form.
pub open spec fn is_not_implemented(e: DecoderError, name: Seq<char>) -> bool {
    e matches DecoderError::DecodeNotImplemented(m) && m@ == name
}

/// The `u32` read from a value.
pub open spec fn spec_read_u32(val: RegValue) -> Result<u32, DecoderError> {
    match spec_u32_of(val.bytes@, val.vtype) {
        Ok(v) => Ok(v),
        Err(e) => Err(DecoderError::IoError(e)),
    }
}

/// The `u64` read from a value.
pub open spec fn spec_read_u64(val: RegValue) -> Result<u64, DecoderError> {
    match spec_u64_of(val.bytes@, val.vtype) {
        Ok(v) => Ok(v),
        Err(e) => Err(DecoderError::IoError(e)),
    }
}

/// The `bool` read from a value: whether its `u32` is not zero.
pub open spec fn spec_read_bool(val: RegValue) -> Result<bool, DecoderError> {
    match spec_read_u32(val) {
        Ok(v) => Ok(v > 0),
        Err(e) => Err(e),
    }
}

/// The integer in `[min, max]` read from a text value.
pub open spec fn spec_read_int(val: RegValue, min: int, max: int) -> Result<int, Seq<char>>
    recommends
        spec_string_of(val.bytes@, val.vtype) is Ok,
{
    match spec_parse_int(spec_string_of(val.bytes@, val.vtype)->Ok_0, min, max) {
        Ok(v) => Ok(v),
        Err(k) => Err(spec_error_text(k)),
    }
}

/// The outcome of reading an integer in `[min, max]` from a value, with the
/// parsed number or the error it gives.
pub open spec fn int_read_ok<T>(val: RegValue, min: int, max: int, r: Result<T, DecoderError>, as_int: spec_fn(T) -> int) -> bool {
    match spec_string_of(val.bytes@, val.vtype) {
        Err(e) => r == Err::<T, DecoderError>(DecoderError::IoError(e)),
        Ok(_) => match spec_read_int(val, min, max) {
            Ok(v) => r matches Ok(x) && as_int(x) == v,
            Err(m) => r matches Err(DecoderError::ParseError(t)) && t@ == m,
        },
    }
}

/// What to enumerate in state `st`: the subkey or the value at its index.
pub open spec fn spec_request(st: DecoderState) -> EnumRequest {
    match st {
        DecoderState::EnumeratingKeys(i) => EnumRequest::Key(i),
        DecoderState::EnumeratingValues(i) => EnumRequest::Value(i),
    }
}

/// The state after the enumeration found a field: one index further.
pub open spec fn spec_after_found(st: DecoderState) -> DecoderState {
    match st {
        DecoderState::EnumeratingKeys(i) => DecoderState::EnumeratingKeys((i + 1) as u32),
        DecoderState::EnumeratingValues(i) => DecoderState::EnumeratingValues((i + 1) as u32),
    }
}

/// Whether to ask again, and the state, after the enumeration found nothing:
/// the subkeys are followed by the values from the first; the values by no
/// more fields.
pub open spec fn spec_after_exhausted(st: DecoderState) -> (bool, DecoderState) {
    match st {
        DecoderState::EnumeratingKeys(_) => (true, DecoderState::EnumeratingValues(0)),
        DecoderState::EnumeratingValues(_) => (false, st),
    }
}

/// What enumerating a key whose subkeys are named `keys` and whose values
/// are named `values` gives for a request: the name at that index, or
/// nothing past the last one.
pub open spec fn spec_enumerate(keys: Seq<Seq<char>>, values: Seq<Seq<char>>, req: EnumRequest) -> Option<Seq<char>> {
    match req {
        EnumRequest::Key(i) => if i < keys.len() {
            Some(keys[i as int])
        } else {
            None
        },
        EnumRequest::Value(i) => if i < values.len() {
            Some(values[i as int])
        } else {
            None
        },
    }
}

/// One request for the next field of a key whose subkeys are named `keys`
/// and whose values are named `values`, made of the steps `next_key_request`,
/// `key_found` and `enumeration_exhausted` as the serde map access runs them:
/// the state afterwards, and the name of the field found, which becomes the
/// current field (`None`: no more fields).
pub open spec fn spec_next_key(keys: Seq<Seq<char>>, values: Seq<Seq<char>>, st: DecoderState) -> (
    DecoderState,
    Option<Seq<char>>,
)
    decreases (if st is EnumeratingKeys {
        1int
    } else {
        0int
    }),
{
    match spec_enumerate(keys, values, spec_request(st)) {
        Some(name) => (spec_after_found(st), Some(name)),
        None => {
            let (again, next) = spec_after_exhausted(st);
            if again && st is EnumeratingKeys {
                spec_next_key(keys, values, next)
            } else {
                (next, None)
            }
        },
    }
}

/// `t` requests for the next field, from state `st`: the state afterwards
/// and the field found by each request, in order.
pub open spec fn spec_next_keys(
    keys: Seq<Seq<char>>,
    values: Seq<Seq<char>>,
    st: DecoderState,
    t: nat,
) -> (DecoderState, Seq<Option<Seq<char>>>)
    decreases t,
{
    if t == 0 {
        (st, seq![])
    } else {
        let (s1, found) = spec_next_keys(keys, values, st, (t - 1) as nat);
        let (s2, r) = spec_next_key(keys, values, s1);
        (s2, found.push(r))
    }
}

/// The field that the request numbered `j` (from 0) finds in a fresh
/// decoder: the subkeys in enumeration order, then the values in
/// enumeration order, then nothing.
pub open spec fn spec_field_at(keys: Seq<Seq<char>>, values: Seq<Seq<char>>, j: int) -> Option<Seq<char>> {
    if j < keys.len() {
        Some(keys[j])
    } else if j < keys.len() + values.len() {
        Some(values[j - keys.len()])
    } else {
        None
    }
}

/// The state of a fresh decoder after `t` requests for the next field.
pub open spec fn spec_state_after(keys: Seq<Seq<char>>, values: Seq<Seq<char>>, t: int) -> DecoderState {
    if t <= keys.len() {
        DecoderState::EnumeratingKeys(t as u32)
    } else if t <= keys.len() + values.len() {
        DecoderState::EnumeratingValues((t - keys.len()) as u32)
    } else {
        DecoderState::EnumeratingValues(values.len() as u32)
    }
}

proof fn lemma_next_key_step(keys: Seq<Seq<char>>, values: Seq<Seq<char>>, t: int)
    requires
        keys.len() <= u32::MAX,
        values.len() <= u32::MAX,
        t >= 0,
    ensures
        spec_next_key(keys, values, spec_state_after(keys, values, t)) == (
            spec_state_after(keys, values, t + 1),
            spec_field_at(keys, values, t),
        ),
{
    let n = keys.len() as int;
    let m = values.len() as int;
    let st = spec_state_after(keys, values, t);
    if t < n {
        assert(spec_request(st) == EnumRequest::Key(t as u32));
    } else if t == n {
        assert(spec_request(st) == EnumRequest::Key(n as u32));
        assert(spec_enumerate(keys, values, spec_request(st)) is None);
        let v0 = DecoderState::EnumeratingValues(0);
        assert(spec_next_key(keys, values, st) == spec_next_key(keys, values, v0));
        if m > 0 {
            assert(spec_enumerate(keys, values, spec_request(v0)) == Some(values[0]));
        } else {
            assert(spec_enumerate(keys, values, spec_request(v0)) is None);
        }
    } else if t < n + m {
        assert(spec_request(st) == EnumRequest::Value((t - n) as u32));
    } else {
        assert(spec_request(st) == EnumRequest::Value(m as u32));
    }
}

/// Repeated requests for the next field of a fresh decoder give each subkey
/// once, in enumeration order, then each value once, in enumeration order,
/// and then no more fields on every later request. (Keys with more than
/// `u32::MAX` subkeys or values are left out: the index would overflow.)
pub proof fn law_fields_enumerated_once_in_order(
    keys: Seq<Seq<char>>,
    values: Seq<Seq<char>>,
    t: nat,
)
    requires
        keys.len() <= u32::MAX,
        values.len() <= u32::MAX,
    ensures
        spec_next_keys(keys, values, DecoderState::EnumeratingKeys(0), t).0 == spec_state_after(
            keys,
            values,
            t as int,
        ),
        spec_next_keys(keys, values, DecoderState::EnumeratingKeys(0), t).1.len() == t,
        forall|j: int|
            0 <= j < t ==> #[trigger] spec_next_keys(
                keys,
                values,
                DecoderState::EnumeratingKeys(0),
                t,
            ).1[j] == spec_field_at(keys, values, j),
    decreases t,
{
    if t > 0 {
        law_fields_enumerated_once_in_order(keys, values, (t - 1) as nat);
        lemma_next_key_step(keys, values, t - 1);
        let prev = spec_next_keys(keys, values, DecoderState::EnumeratingKeys(0), (t - 1) as nat);
        let cur = spec_next_keys(keys, values, DecoderState::EnumeratingKeys(0), t);
        assert(cur.1 == prev.1.push(spec_field_at(keys, values, t - 1)));
        assert forall|j: int| 0 <= j < t implies #[trigger] cur.1[j] == spec_field_at(
            keys,
            values,
            j,
        ) by {
            if j < t - 1 {
                assert(cur.1[j] == prev.1[j]);
            }
        }
    } else {
        assert(spec_state_after(keys, values, 0) == DecoderState::EnumeratingKeys(0));
    }
}

/// A request for the next field never moves the enumeration back: among
/// subkeys the index stays or grows by one, or the values start (at the
/// first value, or just past it); among values the index stays or grows by
/// one. (Keys with more than `u32::MAX` subkeys or values are left out.)
pub proof fn law_next_key_moves_forward(
    keys: Seq<Seq<char>>,
    values: Seq<Seq<char>>,
    st: DecoderState,
)
    requires
        keys.len() <= u32::MAX,
        values.len() <= u32::MAX,
    ensures
        match st {
            DecoderState::EnumeratingKeys(i) => {
                let next = spec_next_key(keys, values, st).0;
                ||| next == st
                ||| (i < u32::MAX && next == DecoderState::EnumeratingKeys((i + 1) as u32))
                ||| next == DecoderState::EnumeratingValues(0)
                ||| next == DecoderState::EnumeratingValues(1)
            },
            DecoderState::EnumeratingValues(j) => {
                let next = spec_next_key(keys, values, st).0;
                ||| next == st
                ||| (j < u32::MAX && next == DecoderState::EnumeratingValues((j + 1) as u32))
            },
        },
{
    if let DecoderState::EnumeratingKeys(i) = st {
        if (i as int) >= keys.len() {
            let v0 = DecoderState::EnumeratingValues(0);
            assert(spec_next_key(keys, values, st) == spec_next_key(keys, values, v0));
        }
    }
}

fn not_implemented(name: &str) -> (e: DecoderError)
    ensures
        is_not_implemented(e, name@),
{
    DecoderError::DecodeNotImplemented(name.to_owned())
}

fn parse_error(k: IntErrorKind) -> (e: DecoderError)
    ensures
        e matches DecoderError::ParseError(t) && t@ == spec_error_text(k),
{
    DecoderError::ParseError(k.debug_text())
}

/// Reads a `u32`: a `REG_DWORD` of at least four bytes gives its
/// little-endian word; anything else gives the bad-file-type error.
pub fn read_u32(val: &RegValue) -> (r: Result<u32, DecoderError>)
    ensures
        r == spec_read_u32(*val),
{
    match u32_from_value(val) {
        Ok(v) => Ok(v),
        Err(e) => Err(DecoderError::IoError(e)),
    }
}

/// Reads a `u64`: a `REG_QWORD` of at least eight bytes gives its
/// little-endian word; anything else gives the bad-file-type error.
pub fn read_u64(val: &RegValue) -> (r: Result<u64, DecoderError>)
    ensures
        r == spec_read_u64(*val),
{
    match u64_from_value(val) {
        Ok(v) => Ok(v),
        Err(e) => Err(DecoderError::IoError(e)),
    }
}

/// Reads a `bool`: true when the `u32` read is not zero.
pub fn read_bool(val: &RegValue) -> (r: Result<bool, DecoderError>)
    ensures
        r == spec_read_bool(*val),
{
    match read_u32(val) {
        Ok(v) => Ok(v > 0),
        Err(e) => Err(e),
    }
}

/// Reads a text (see `value::spec_string_of`).
pub fn read_string(val: &RegValue) -> (r: Result<String, DecoderError>)
    ensures
        match r {
            Ok(s) => spec_string_of(val.bytes@, val.vtype) == Ok::<Seq<char>, i32>(s@),
            Err(e) => spec_string_of(val.bytes@, val.vtype) matches Err(c) && e
                == DecoderError::IoError(c),
        },
{
    match string_from_value(val) {
        Ok(s) => Ok(s),
        Err(e) => Err(DecoderError::IoError(e)),
    }
}

/// Reads an `i8` from the decimal text of a text value.
pub fn read_i8(val: &RegValue) -> (r: Result<i8, DecoderError>)
    ensures
        int_read_ok(*val, i8::MIN as int, i8::MAX as int, r, |x: i8| x as int),
{
    let s = read_string(val)?;
    match parse_i8(s.as_str()) {
        Ok(v) => Ok(v),
        Err(k) => Err(parse_error(k)),
    }
}

/// Reads an `i16` from the decimal text of a text value.
pub fn read_i16(val: &RegValue) -> (r: Result<i16, DecoderError>)
    ensures
        int_read_ok(*val, i16::MIN as int, i16::MAX as int, r, |x: i16| x as int),
{
    let s = read_string(val)?;
    match parse_i16(s.as_str()) {
        Ok(v) => Ok(v),
        Err(k) => Err(parse_error(k)),
    }
}

/// Reads an `i32` from the decimal text of a text value.
pub fn read_i32(val: &RegValue) -> (r: Result<i32, DecoderError>)
    ensures
        int_read_ok(*val, i32::MIN as int, i32::MAX as int, r, |x: i32| x as int),
{
    let s = read_string(val)?;
    match parse_i32(s.as_str()) {
        Ok(v) => Ok(v),
        Err(k) => Err(parse_error(k)),
    }
}

/// Reads an `i64` from the decimal text of a text value.
pub fn read_i64(val: &RegValue) -> (r: Result<i64, DecoderError>)
    ensures
        int_read_ok(*val, i64::MIN as int, i64::MAX as int, r, |x: i64| x as int),
{
    let s = read_string(val)?;
    match parse_i64(s.as_str()) {
        Ok(v) => Ok(v),
        Err(k) => Err(parse_error(k)),
    }
}

/// Reads a value of unrequested type: text types give a text, `REG_DWORD`
/// a `u32`, `REG_QWORD` a `u64`; other types are not supported.
pub fn read_any(val: &RegValue) -> (r: Result<AnyValue, DecoderError>)
    ensures
        is_string_type(val.vtype) ==> match r {
            Ok(AnyValue::Str(s)) => spec_string_of(val.bytes@, val.vtype) == Ok::<
                Seq<char>,
                i32,
            >(s@),
            Ok(_) => false,
            Err(e) => spec_string_of(val.bytes@, val.vtype) matches Err(c) && e
                == DecoderError::IoError(c),
        },
        val.vtype == RegType::REG_DWORD ==> match r {
            Ok(AnyValue::U32(v)) => spec_read_u32(*val) == Ok::<u32, DecoderError>(v),
            Ok(_) => false,
            Err(e) => spec_read_u32(*val) == Err::<u32, DecoderError>(e),
        },
        val.vtype == RegType::REG_QWORD ==> match r {
            Ok(AnyValue::U64(v)) => spec_read_u64(*val) == Ok::<u64, DecoderError>(v),
            Ok(_) => false,
            Err(e) => spec_read_u64(*val) == Err::<u64, DecoderError>(e),
        },
        !is_string_type(val.vtype) && val.vtype != RegType::REG_DWORD && val.vtype
            != RegType::REG_QWORD ==> (r matches Err(e) && is_not_implemented(
            e,
            "value type deserialization not implemented"@,
        )),
{
    match val.vtype {
        RegType::REG_SZ | RegType::REG_EXPAND_SZ | RegType::REG_MULTI_SZ => {
            let s = read_string(val)?;
            Ok(AnyValue::Str(s))
        },
        RegType::REG_DWORD => {
            let v = read_u32(val)?;
            Ok(AnyValue::U32(v))
        },
        RegType::REG_QWORD => {
            let v = read_u64(val)?;
            Ok(AnyValue::U64(v))
        },
        _ => Err(not_implemented("value type deserialization not implemented")),
    }
}

impl Decoder {
    /// A decoder at the start of a key: before its first subkey, with no
    /// current field.
    pub fn new() -> (r: Decoder)
        ensures
            r.f_name is None,
            r.state == DecoderState::EnumeratingKeys(0),
    {
        Decoder { f_name: None, state: DecoderState::EnumeratingKeys(0) }
    }

    /// Takes the name of the current field, to read its value once; there
    /// is none afterwards until the next field.
    pub fn take_field_name(&mut self) -> (r: Result<String, DecoderError>)
        ensures
            final(self).f_name is None,
            final(self).state == old(self).state,
            match old(self).f_name {
                Some(n) => r matches Ok(m) && m@ == n@,
                None => r == Err::<String, DecoderError>(DecoderError::NoFieldName),
            },
    {
        let mut name = None;
        std::mem::swap(&mut name, &mut self.f_name);
        match name {
            Some(n) => Ok(n),
            None => Err(DecoderError::NoFieldName),
        }
    }

    /// The name of the value to read for a value of unrequested type: among
    /// subkeys this is not supported; among values it is the current field,
    /// which stays current.
    pub fn any_field_name(&self) -> (r: Result<String, DecoderError>)
        ensures
            match self.state {
                DecoderState::EnumeratingKeys(_) => r matches Err(e) && is_not_implemented(
                    e,
                    "deserialize_any for keys"@,
                ),
                DecoderState::EnumeratingValues(_) => match self.f_name {
                    Some(n) => r matches Ok(m) && m@ == n@,
                    None => r == Err::<String, DecoderError>(DecoderError::NoFieldName),
                },
            },
    {
        match self.state {
            DecoderState::EnumeratingKeys(_) => Err(not_implemented("deserialize_any for keys")),
            DecoderState::EnumeratingValues(_) => match &self.f_name {
                Some(n) => Ok(n.clone()),
                None => Err(DecoderError::NoFieldName),
            },
        }
    }

    /// The name of the current field, as a struct field identifier.
    pub fn deserialize_identifier(&self) -> (r: Result<String, DecoderError>)
        ensures
            match self.f_name {
                Some(n) => r matches Ok(m) && m@ == n@,
                None => r == Err::<String, DecoderError>(DecoderError::NoFieldName),
            },
    {
        match &self.f_name {
            Some(n) => Ok(n.clone()),
            None => Err(DecoderError::NoFieldName),
        }
    }

    /// Which subkey or value to enumerate for the next field.
    pub fn next_key_request(&self) -> (r: EnumRequest)
        ensures
            r == spec_request(self.state),
    {
        match self.state {
            DecoderState::EnumeratingKeys(i) => EnumRequest::Key(i),
            DecoderState::EnumeratingValues(i) => EnumRequest::Value(i),
        }
    }

    /// The enumeration found a subkey or value of this name: it becomes the
    /// current field, and the enumeration moves past it.
    pub fn key_found(&mut self, name: String)
        requires
            match old(self).state {
                DecoderState::EnumeratingKeys(i) => i < u32::MAX,
                DecoderState::EnumeratingValues(i) => i < u32::MAX,
            },
        ensures
            name_view(final(self).f_name) == Some(name@),
            final(self).state == spec_after_found(old(self).state),
    {
        self.f_name = Some(name);
        self.state = match self.state {
            DecoderState::EnumeratingKeys(i) => DecoderState::EnumeratingKeys(i + 1),
            DecoderState::EnumeratingValues(i) => DecoderState::EnumeratingValues(i + 1),
        };
    }

    /// The enumeration found nothing more. After the subkeys come the
    /// values, from the first, and the caller asks again (`true`); after the
    /// values the structure has no more fields (`false`).
    pub fn enumeration_exhausted(&mut self) -> (again: bool)
        ensures
            final(self).f_name == old(self).f_name,
            (again, final(self).state) == spec_after_exhausted(old(self).state),
    {
        match self.state {
            DecoderState::EnumeratingKeys(_) => {
                self.state = DecoderState::EnumeratingValues(0);
                true
            },
            DecoderState::EnumeratingValues(_) => false,
        }
    }

    /// Where the value of the current field is read from: a field found
    /// among the subkeys is the subkey of its name, read by a fresh decoder;
    /// a field found among the values is read from the current key.
    pub fn next_value_source(&self) -> (r: Result<ValueSource, DecoderError>)
        ensures
            match self.state {
                DecoderState::EnumeratingKeys(_) => match self.f_name {
                    Some(n) => r matches Ok(ValueSource::Subkey(m)) && m@ == n@,
                    None => r == Err::<ValueSource, DecoderError>(DecoderError::NoFieldName),
                },
                DecoderState::EnumeratingValues(_) => r == Ok::<ValueSource, DecoderError>(
                    ValueSource::CurrentKey,
                ),
            },
    {
        match self.state {
            DecoderState::EnumeratingKeys(_) => match &self.f_name {
                Some(n) => Ok(ValueSource::Subkey(n.clone())),
                None => Err(DecoderError::NoFieldName),
            },
            DecoderState::EnumeratingValues(_) => Ok(ValueSource::CurrentKey),
        }
    }

    /// `f32` has no registry form.
    pub fn deserialize_f32(&self) -> (e: DecoderError)
        ensures
            is_not_implemented(e, "deserialize_f32"@),
    {
        not_implemented("deserialize_f32")
    }

    /// `f64` has no registry form.
    pub fn deserialize_f64(&self) -> (e: DecoderError)
        ensures
            is_not_implemented(e, "deserialize_f64"@),
    {
        not_implemented("deserialize_f64")
    }

    /// `char` has no registry form.
    pub fn deserialize_char(&self) -> (e: DecoderError)
        ensures
            is_not_implemented(e, "deserialize_char"@),
    {
        not_implemented("deserialize_char")
    }

    /// Borrowed text is not supported (owned text is).
    pub fn deserialize_str(&self) -> (e: DecoderError)
        ensures
            is_not_implemented(e, "deserialize_str"@),
    {
        not_implemented("deserialize_str")
    }

    /// Byte strings have no registry form.
    pub fn deserialize_bytes(&self) -> (e: DecoderError)
        ensures
            is_not_implemented(e, "deserialize_bytes"@),
    {
        not_implemented("deserialize_bytes")
    }

    /// Byte buffers have no registry form.
    pub fn deserialize_byte_buf(&self) -> (e: DecoderError)
        ensures
            is_not_implemented(e, "deserialize_byte_buf"@),
    {
        not_implemented("deserialize_byte_buf")
    }

    /// Options have no registry form.
    pub fn deserialize_option(&self) -> (e: DecoderError)
        ensures
            is_not_implemented(e, "deserialize_option"@),
    {
        not_implemented("deserialize_option")
    }

    /// `()` has no registry form.
    pub fn deserialize_unit(&self) -> (e: DecoderError)
        ensures
            is_not_implemented(e, "deserialize_unit"@),
    {
        not_implemented("deserialize_unit")
    }

    /// Unit structures have no registry form.
    pub fn deserialize_unit_struct(&self, name: &str) -> (e: DecoderError)
        ensures
            is_not_implemented(e, "deserialize_unit_struct"@),
    {
        not_implemented("deserialize_unit_struct")
    }

    /// Newtype structures have no registry form.
    pub fn deserialize_newtype_struct(&self, name: &str) -> (e: DecoderError)
        ensures
            is_not_implemented(e, "deserialize_newtype_struct"@),
    {
        not_implemented("deserialize_newtype_struct")
    }

    /// Sequences have no registry form.
    pub fn deserialize_seq(&self) -> (e: DecoderError)
        ensures
            is_not_implemented(e, "deserialize_seq"@),
    {
        not_implemented("deserialize_seq")
    }

    /// Tuples have no registry form.
    pub fn deserialize_tuple(&self, len: usize) -> (e: DecoderError)
        ensures
            is_not_implemented(e, "deserialize_tuple"@),
    {
        not_implemented("deserialize_tuple")
    }

    /// Tuple structures have no registry form.
    pub fn deserialize_tuple_struct(&self, name: &str, len: usize) -> (e: DecoderError)
        ensures
            is_not_implemented(e, "deserialize_tuple_struct"@),
    {
        not_implemented("deserialize_tuple_struct")
    }

    /// Maps have no registry form (structures do).
    pub fn deserialize_map(&self) -> (e: DecoderError)
        ensures
            is_not_implemented(e, "deserialize_map"@),
    {
        not_implemented("deserialize_map")
    }

    /// Enums have no registry form.
    pub fn deserialize_enum(&self, name: &str) -> (e: DecoderError)
        ensures
            is_not_implemented(e, "deserialize_enum"@),
    {
        not_implemented("deserialize_enum")
    }
}

/// A `bool` is read from a `REG_DWORD` of at least four bytes, and is true
/// exactly when the little-endian word of its first four bytes is not zero
/// (so the word 2 reads as true); any other value gives the bad-file-type
/// error. Whenever the `u32` read succeeds, the `bool` read is whether it is
/// non-zero.
pub proof fn law_bool_read(val: RegValue)
    ensures
        val.vtype == RegType::REG_DWORD && val.bytes@.len() >= 4 ==> spec_read_bool(val) == Ok::<
            bool,
            DecoderError,
        >(val.bytes@[0] + 0x100 * val.bytes@[1] + 0x1_0000 * val.bytes@[2] + 0x100_0000
            * val.bytes@[3] != 0),
        !(val.vtype == RegType::REG_DWORD && val.bytes@.len() >= 4) ==> spec_read_bool(val)
            == Err::<bool, DecoderError>(DecoderError::IoError(222)),
        spec_read_u32(val) is Ok ==> spec_read_bool(val) == Ok::<bool, DecoderError>(
            spec_read_u32(val)->Ok_0 != 0,
        ),
{
    law_dword_read(val.bytes@, val.vtype);
}

} // verus!
