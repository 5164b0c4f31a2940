use winreg::decoder::{
    read_any, read_bool, read_i16, read_i32, read_i64, read_i8, read_string, read_u32, read_u64,
    AnyValue, Decoder, DecoderError, DecoderState, EnumRequest, ValueSource,
};
use winreg::encoder::{
    Encoder, EncoderError, EncoderState, RegCompound, RegSerializeSeqStub, RegSerializeStructStub,
    RegSerializeStructVariantStub, RegSerializeTupleStructStub, RegSerializeTupleStub,
    RegSerializeTupleVariantStub, StructOpening,
};
use winreg::value::{dword_value, qword_value, string_value, RegType, RegValue};

fn not_impl(name: &str) -> EncoderError {
    EncoderError::EncodeNotImplemented(name.to_string())
}

fn dec_not_impl(name: &str) -> DecoderError {
    DecoderError::DecodeNotImplemented(name.to_string())
}

#[test]
fn a_field_names_the_next_value() {
    let mut enc = Encoder::new("root");
    let mut stub = RegSerializeStructStub { is_root: true };
    stub.serialize_field(&mut enc, "answer");
    assert_eq!(enc.state, EncoderState::NextKey("answer".to_string()));
    let w = enc.serialize_u32(42).unwrap();
    assert_eq!(w.name, "answer");
    assert_eq!(w.value, dword_value(42));
    assert_eq!(enc.state, EncoderState::Start);
    // the name was used: a second value is refused
    assert_eq!(enc.serialize_u32(43), Err(EncoderError::NoFieldName));
    assert_eq!(enc.keys, vec!["root"]);
}

#[test]
fn primitive_encodings() {
    let mut enc = Encoder::new(0u8);
    let mut stub = RegSerializeStructStub { is_root: true };
    stub.serialize_field(&mut enc, "b");
    assert_eq!(enc.serialize_bool(true).unwrap().value, dword_value(1));
    stub.serialize_field(&mut enc, "b");
    assert_eq!(enc.serialize_bool(false).unwrap().value, dword_value(0));
    stub.serialize_field(&mut enc, "u8");
    assert_eq!(enc.serialize_u8(200).unwrap().value, dword_value(200));
    stub.serialize_field(&mut enc, "u16");
    assert_eq!(enc.serialize_u16(60000).unwrap().value, dword_value(60000));
    stub.serialize_field(&mut enc, "u64");
    assert_eq!(enc.serialize_u64(1 << 40).unwrap().value, qword_value(1 << 40));
    stub.serialize_field(&mut enc, "i8");
    assert_eq!(enc.serialize_i8(-7).unwrap().value, string_value("-7"));
    stub.serialize_field(&mut enc, "i16");
    assert_eq!(enc.serialize_i16(-300).unwrap().value, string_value("-300"));
    stub.serialize_field(&mut enc, "i32");
    assert_eq!(enc.serialize_i32(123456).unwrap().value, string_value("123456"));
    stub.serialize_field(&mut enc, "i64");
    let w = enc.serialize_i64(i64::MIN).unwrap();
    assert_eq!(w.name, "i64");
    assert_eq!(w.value, string_value("-9223372036854775808"));
    stub.serialize_field(&mut enc, "s");
    let w = enc.serialize_str("text").unwrap();
    assert_eq!(w.value.vtype, RegType::REG_SZ);
    assert_eq!(w.value, string_value("text"));
}

#[test]
fn values_without_a_field_are_refused() {
    let mut enc = Encoder::new(());
    assert_eq!(enc.serialize_bool(true), Err(EncoderError::NoFieldName));
    assert_eq!(enc.serialize_i64(1), Err(EncoderError::NoFieldName));
    assert_eq!(enc.serialize_u64(1), Err(EncoderError::NoFieldName));
    assert_eq!(enc.serialize_str("x"), Err(EncoderError::NoFieldName));
}

#[test]
fn unsupported_serializations() {
    let enc = Encoder::new(());
    assert_eq!(enc.serialize_f32(), Err(not_impl("serialize_f32")));
    assert_eq!(enc.serialize_f64(), Err(not_impl("serialize_f64")));
    assert_eq!(enc.serialize_char('c'), Err(not_impl("serialize_char")));
    assert_eq!(enc.serialize_bytes(&[1]), Err(not_impl("serialize_bytes")));
    assert_eq!(enc.serialize_none(), Err(not_impl("serialize_none")));
    assert_eq!(enc.serialize_some(), Err(not_impl("serialize_some")));
    assert_eq!(enc.serialize_unit(), Err(not_impl("serialize_unit")));
    assert_eq!(enc.serialize_unit_struct("U"), Err(not_impl("serialize_unit_struct")));
    assert_eq!(enc.serialize_unit_variant("E", 0, "A"), Err(not_impl("serialize_unit_variant")));
    assert_eq!(enc.serialize_newtype_struct("N"), Err(not_impl("serialize_newtype_struct")));
    assert_eq!(
        enc.serialize_newtype_variant("E", 1, "B"),
        Err(not_impl("serialize_newtype_variant"))
    );
    assert!(matches!(enc.serialize_seq(None), Err(e) if e == not_impl("serialize_seq")));
    assert!(matches!(enc.serialize_tuple(2), Err(e) if e == not_impl("serialize_tuple")));
    assert!(matches!(enc.serialize_tuple_struct("T", 2),
        Err(e) if e == not_impl("serialize_tuple_struct")));
    assert!(matches!(enc.serialize_tuple_variant("E", 0, "T", 2),
        Err(e) if e == not_impl("serialize_tuple_variant")));
    assert!(matches!(enc.serialize_struct_variant("E", 0, "S", 2),
        Err(e) if e == not_impl("serialize_struct_variant")));
    assert!(enc.serialize_map(None).is_ok());
    assert_eq!(enc.state, EncoderState::Start);
}

#[test]
fn stub_methods_are_refused() {
    let mut c = RegCompound {};
    assert_eq!(c.serialize_key(), Err(not_impl("SerializeMap::serialize_key")));
    assert_eq!(c.serialize_value(), Err(not_impl("SerializeMap::serialize_value")));
    assert_eq!(c.end(), Err(not_impl("SerializeMap::end")));
    let mut s = RegSerializeSeqStub {};
    assert_eq!(s.serialize_element(), Err(not_impl("SerializeSeq::serialize_element")));
    assert_eq!(s.end(), Err(not_impl("SerializeSeq::end")));
    let mut t = RegSerializeTupleStub {};
    assert_eq!(t.serialize_element(), Err(not_impl("SerializeTuple::serialize_element")));
    assert_eq!(t.end(), Err(not_impl("SerializeTuple::end")));
    let mut ts = RegSerializeTupleStructStub {};
    assert_eq!(ts.serialize_field(), Err(not_impl("SerializeTupleStruct::serialize_field")));
    assert_eq!(ts.end(), Err(not_impl("SerializeTupleStruct::end")));
    let mut tv = RegSerializeTupleVariantStub {};
    assert_eq!(tv.serialize_field(), Err(not_impl("SerializeTupleVariant::serialize_field")));
    assert_eq!(tv.end(), Err(not_impl("SerializeTupleVariant::end")));
    let mut sv = RegSerializeStructVariantStub {};
    assert_eq!(sv.serialize_field(), Err(not_impl("SerializeStructVariant::serialize_field")));
    assert_eq!(sv.end(), Err(not_impl("SerializeStructVariant::end")));
}

#[test]
fn nested_structures_open_and_close_subkeys() {
    let mut enc = Encoder::new("root".to_string());
    // the structure being encoded goes into the root key
    let root = match enc.serialize_struct("Outer", 2) {
        StructOpening::Root(stub) => stub,
        StructOpening::Subkey(_) => panic!("expected the root structure"),
    };
    assert!(root.is_root);
    let mut root = root;
    root.serialize_field(&mut enc, "inner");
    // a structure under a field goes into a subkey of that name
    let name = match enc.serialize_struct("Inner", 1) {
        StructOpening::Subkey(name) => name,
        StructOpening::Root(_) => panic!("expected a subkey"),
    };
    assert_eq!(name, "inner");
    assert_eq!(enc.state, EncoderState::Start);
    let mut inner = enc.push_subkey("root\\inner".to_string());
    assert_eq!(enc.top_key(), "root\\inner");
    inner.serialize_field(&mut enc, "x");
    let w = enc.serialize_u32(1).unwrap();
    assert_eq!(w.name, "x");
    assert_eq!(inner.end(&mut enc), Ok(()));
    assert_eq!(enc.keys, vec!["root".to_string()]);
    assert_eq!(enc.top_key(), "root");
    assert_eq!(root.end(&mut enc), Ok(()));
    assert!(enc.keys.is_empty());
    // ending with no open key leaves the stack empty
    assert_eq!(RegSerializeStructStub { is_root: true }.end(&mut enc), Ok(()));
    assert!(enc.keys.is_empty());
    let mut e2 = Encoder::new(1);
    assert_eq!(RegSerializeStructStub { is_root: false }.end(&mut e2), Ok(()));
    assert_eq!(e2.keys, vec![1]);
}

#[test]
fn custom_errors() {
    assert_eq!(EncoderError::custom("boom"), EncoderError::SerializerError("boom".to_string()));
    assert_eq!(DecoderError::custom("bang"), DecoderError::DeserializerError("bang".to_string()));
}

#[test]
fn decoder_enumerates_subkeys_then_values() {
    let mut d = Decoder::new();
    assert_eq!(d.state, DecoderState::EnumeratingKeys(0));
    assert_eq!(d.f_name, None);
    assert_eq!(d.next_key_request(), EnumRequest::Key(0));
    d.key_found("child".to_string());
    assert_eq!(d.f_name, Some("child".to_string()));
    assert_eq!(d.state, DecoderState::EnumeratingKeys(1));
    assert_eq!(d.deserialize_identifier(), Ok("child".to_string()));
    assert_eq!(d.next_value_source(), Ok(ValueSource::Subkey("child".to_string())));
    assert_eq!(d.next_key_request(), EnumRequest::Key(1));
    assert!(d.enumeration_exhausted());
    assert_eq!(d.state, DecoderState::EnumeratingValues(0));
    assert_eq!(d.next_key_request(), EnumRequest::Value(0));
    d.key_found("v".to_string());
    assert_eq!(d.state, DecoderState::EnumeratingValues(1));
    assert_eq!(d.next_value_source(), Ok(ValueSource::CurrentKey));
    assert_eq!(d.any_field_name(), Ok("v".to_string()));
    assert_eq!(d.take_field_name(), Ok("v".to_string()));
    assert_eq!(d.take_field_name(), Err(DecoderError::NoFieldName));
    assert_eq!(d.deserialize_identifier(), Err(DecoderError::NoFieldName));
    assert_eq!(d.any_field_name(), Err(DecoderError::NoFieldName));
    assert!(!d.enumeration_exhausted());
    assert_eq!(d.state, DecoderState::EnumeratingValues(1));
}

#[test]
fn decoder_refusals() {
    let d = Decoder::new();
    assert_eq!(d.any_field_name(), Err(dec_not_impl("deserialize_any for keys")));
    assert_eq!(d.next_value_source(), Err(DecoderError::NoFieldName));
    assert_eq!(d.deserialize_f32(), dec_not_impl("deserialize_f32"));
    assert_eq!(d.deserialize_f64(), dec_not_impl("deserialize_f64"));
    assert_eq!(d.deserialize_char(), dec_not_impl("deserialize_char"));
    assert_eq!(d.deserialize_str(), dec_not_impl("deserialize_str"));
    assert_eq!(d.deserialize_bytes(), dec_not_impl("deserialize_bytes"));
    assert_eq!(d.deserialize_byte_buf(), dec_not_impl("deserialize_byte_buf"));
    assert_eq!(d.deserialize_option(), dec_not_impl("deserialize_option"));
    assert_eq!(d.deserialize_unit(), dec_not_impl("deserialize_unit"));
    assert_eq!(d.deserialize_unit_struct("U"), dec_not_impl("deserialize_unit_struct"));
    assert_eq!(d.deserialize_newtype_struct("N"), dec_not_impl("deserialize_newtype_struct"));
    assert_eq!(d.deserialize_seq(), dec_not_impl("deserialize_seq"));
    assert_eq!(d.deserialize_tuple(2), dec_not_impl("deserialize_tuple"));
    assert_eq!(d.deserialize_tuple_struct("T", 2), dec_not_impl("deserialize_tuple_struct"));
    assert_eq!(d.deserialize_map(), dec_not_impl("deserialize_map"));
    assert_eq!(d.deserialize_enum("E"), dec_not_impl("deserialize_enum"));
}

#[test]
fn decoder_reads() {
    assert_eq!(read_u32(&dword_value(7)), Ok(7));
    assert_eq!(read_u64(&qword_value(1 << 50)), Ok(1 << 50));
    assert_eq!(read_bool(&dword_value(0)), Ok(false));
    assert_eq!(read_bool(&dword_value(5)), Ok(true));
    assert_eq!(read_u32(&string_value("7")), Err(DecoderError::IoError(222)));
    assert_eq!(read_u64(&dword_value(7)), Err(DecoderError::IoError(222)));
    assert_eq!(read_bool(&qword_value(1)), Err(DecoderError::IoError(222)));
    assert_eq!(read_string(&string_value("hey")), Ok("hey".to_string()));
    assert_eq!(read_string(&dword_value(1)), Err(DecoderError::IoError(222)));
    assert_eq!(read_i8(&string_value("-12")), Ok(-12));
    assert_eq!(read_i16(&string_value("-1200")), Ok(-1200));
    assert_eq!(read_i32(&string_value("120000")), Ok(120000));
    assert_eq!(read_i64(&string_value("-9223372036854775808")), Ok(i64::MIN));
    assert_eq!(
        read_i8(&string_value("300")),
        Err(DecoderError::ParseError("ParseIntError { kind: PosOverflow }".to_string()))
    );
    assert_eq!(
        read_i16(&string_value("")),
        Err(DecoderError::ParseError("ParseIntError { kind: Empty }".to_string()))
    );
    assert_eq!(
        read_i32(&string_value("1.5")),
        Err(DecoderError::ParseError("ParseIntError { kind: InvalidDigit }".to_string()))
    );
    assert_eq!(
        read_i64(&string_value("-99999999999999999999")),
        Err(DecoderError::ParseError("ParseIntError { kind: NegOverflow }".to_string()))
    );
    assert_eq!(read_i8(&dword_value(1)), Err(DecoderError::IoError(222)));
}

#[test]
fn untyped_reads() {
    assert_eq!(read_any(&string_value("s")), Ok(AnyValue::Str("s".to_string())));
    let ex = RegValue { bytes: string_value("%PATH%").bytes, vtype: RegType::REG_EXPAND_SZ };
    assert_eq!(read_any(&ex), Ok(AnyValue::Str("%PATH%".to_string())));
    assert_eq!(read_any(&dword_value(9)), Ok(AnyValue::U32(9)));
    assert_eq!(read_any(&qword_value(9)), Ok(AnyValue::U64(9)));
    let bin = RegValue { bytes: vec![1, 2], vtype: RegType::REG_BINARY };
    assert_eq!(read_any(&bin), Err(dec_not_impl("value type deserialization not implemented")));
    let short = RegValue { bytes: vec![1], vtype: RegType::REG_DWORD };
    assert_eq!(read_any(&short), Err(DecoderError::IoError(222)));
}

#[test]
fn written_values_read_back() {
    let mut enc = Encoder::new(());
    let mut stub = RegSerializeStructStub { is_root: true };
    for v in [i8::MIN, -3, 0, 3, i8::MAX] {
        stub.serialize_field(&mut enc, "f");
        let w = enc.serialize_i8(v).unwrap();
        assert_eq!(read_i8(&w.value), Ok(v));
    }
    for v in [i16::MIN, i16::MAX] {
        stub.serialize_field(&mut enc, "f");
        assert_eq!(read_i16(&enc.serialize_i16(v).unwrap().value), Ok(v));
    }
    for v in [i32::MIN, i32::MAX] {
        stub.serialize_field(&mut enc, "f");
        assert_eq!(read_i32(&enc.serialize_i32(v).unwrap().value), Ok(v));
    }
    for v in [i64::MIN, i64::MAX] {
        stub.serialize_field(&mut enc, "f");
        assert_eq!(read_i64(&enc.serialize_i64(v).unwrap().value), Ok(v));
    }
    for b in [true, false] {
        stub.serialize_field(&mut enc, "f");
        assert_eq!(read_bool(&enc.serialize_bool(b).unwrap().value), Ok(b));
    }
    stub.serialize_field(&mut enc, "f");
    assert_eq!(read_u32(&enc.serialize_u8(250).unwrap().value), Ok(250));
    stub.serialize_field(&mut enc, "f");
    assert_eq!(read_u32(&enc.serialize_u16(65000).unwrap().value), Ok(65000));
    stub.serialize_field(&mut enc, "f");
    assert_eq!(read_u32(&enc.serialize_u32(u32::MAX).unwrap().value), Ok(u32::MAX));
    stub.serialize_field(&mut enc, "f");
    assert_eq!(read_u64(&enc.serialize_u64(u64::MAX).unwrap().value), Ok(u64::MAX));
    for s in ["", "plain", "ünïcödé 🎉"] {
        stub.serialize_field(&mut enc, "f");
        assert_eq!(read_string(&enc.serialize_str(s).unwrap().value), Ok(s.to_string()));
    }
    // a text ending in NUL loses its trailing NULs
    stub.serialize_field(&mut enc, "f");
    assert_eq!(read_string(&enc.serialize_str("a\0\0").unwrap().value), Ok("a".to_string()));
}

/// Runs one request for the next field over a key whose subkeys and values
/// are the given names, as the map access does.
fn next_field(d: &mut Decoder, keys: &[&str], values: &[&str]) -> Option<String> {
    loop {
        let found = match d.next_key_request() {
            EnumRequest::Key(i) => keys.get(i as usize),
            EnumRequest::Value(i) => values.get(i as usize),
        };
        match found {
            Some(name) => {
                d.key_found(name.to_string());
                return Some(name.to_string());
            }
            None => {
                if !d.enumeration_exhausted() {
                    return None;
                }
            }
        }
    }
}

#[test]
fn fields_come_once_each_subkeys_first() {
    let keys = ["c", "d"];
    let values = ["a", "b", "e"];
    let mut d = Decoder::new();
    let mut seen = Vec::new();
    for _ in 0..9 {
        seen.push(next_field(&mut d, &keys, &values));
    }
    let expected: Vec<Option<String>> = vec![
        Some("c".to_string()),
        Some("d".to_string()),
        Some("a".to_string()),
        Some("b".to_string()),
        Some("e".to_string()),
        None,
        None,
        None,
        None,
    ];
    assert_eq!(seen, expected);
    assert_eq!(d.state, DecoderState::EnumeratingValues(3));
}

#[test]
fn fields_of_a_key_without_subkeys_or_values() {
    let mut d = Decoder::new();
    assert_eq!(next_field(&mut d, &[], &["only"]), Some("only".to_string()));
    assert_eq!(next_field(&mut d, &[], &["only"]), None);
    let mut e = Decoder::new();
    assert_eq!(next_field(&mut e, &["sub"], &[]), Some("sub".to_string()));
    assert_eq!(next_field(&mut e, &["sub"], &[]), None);
    assert_eq!(next_field(&mut e, &["sub"], &[]), None);
    assert_eq!(e.state, DecoderState::EnumeratingValues(0));
}

#[test]
fn sibling_fields_after_a_nested_structure_go_to_the_same_key() {
    let mut enc = Encoder::new("root".to_string());
    let mut root = match enc.serialize_struct("S", 3) {
        StructOpening::Root(stub) => stub,
        StructOpening::Subkey(_) => panic!("expected the root structure"),
    };
    root.serialize_field(&mut enc, "a");
    assert_eq!(enc.serialize_u32(5).unwrap().name, "a");
    root.serialize_field(&mut enc, "c");
    let sub = match enc.serialize_struct("Inner", 2) {
        StructOpening::Subkey(name) => name,
        StructOpening::Root(_) => panic!("expected a subkey"),
    };
    let mut inner = enc.push_subkey(format!("root\\{}", sub));
    inner.serialize_field(&mut enc, "x");
    assert_eq!(enc.serialize_i32(-3).unwrap().name, "x");
    inner.serialize_field(&mut enc, "deeper");
    let sub2 = match enc.serialize_struct("Deeper", 1) {
        StructOpening::Subkey(name) => name,
        StructOpening::Root(_) => panic!("expected a subkey"),
    };
    let mut deeper = enc.push_subkey(format!("root\\c\\{}", sub2));
    deeper.serialize_field(&mut enc, "y");
    assert_eq!(enc.serialize_bool(true).unwrap().name, "y");
    assert_eq!(deeper.end(&mut enc), Ok(()));
    assert_eq!(enc.top_key(), "root\\c");
    inner.serialize_field(&mut enc, "z");
    assert_eq!(enc.serialize_u64(7).unwrap().name, "z");
    assert_eq!(inner.end(&mut enc), Ok(()));
    assert_eq!(enc.keys, vec!["root".to_string()]);
    root.serialize_field(&mut enc, "b");
    let w = enc.serialize_str("hi").unwrap();
    assert_eq!(w.name, "b");
    assert_eq!(enc.top_key(), "root");
    assert_eq!(root.end(&mut enc), Ok(()));
    assert!(enc.keys.is_empty());
}

/// Keys held in memory by path: the values and the subkey names of each.
#[derive(Default)]
struct MemRegistry {
    values: std::collections::BTreeMap<String, Vec<(String, RegValue)>>,
    subkeys: std::collections::BTreeMap<String, Vec<String>>,
}

impl MemRegistry {
    fn set(&mut self, path: &str, name: String, value: RegValue) {
        let vals = self.values.entry(path.to_string()).or_default();
        vals.retain(|(n, _)| *n != name);
        vals.push((name, value));
    }

    fn create_subkey(&mut self, path: &str, name: &str) -> String {
        let subs = self.subkeys.entry(path.to_string()).or_default();
        if !subs.iter().any(|n| n == name) {
            subs.push(name.to_string());
        }
        format!("{}\\{}", path, name)
    }

    fn value_names(&self, path: &str) -> Vec<String> {
        self.values.get(path).map(|v| v.iter().map(|(n, _)| n.clone()).collect()).unwrap_or_default()
    }

    fn subkey_names(&self, path: &str) -> Vec<String> {
        self.subkeys.get(path).cloned().unwrap_or_default()
    }

    fn get(&self, path: &str, name: &str) -> RegValue {
        self.values[path].iter().find(|(n, _)| n == name).unwrap().1.clone()
    }
}

/// The fields found in a key, each with where its value is read from.
fn decode_fields(reg: &MemRegistry, path: &str) -> Vec<(String, ValueSource)> {
    let keys = reg.subkey_names(path);
    let values = reg.value_names(path);
    let keys: Vec<&str> = keys.iter().map(|s| s.as_str()).collect();
    let values: Vec<&str> = values.iter().map(|s| s.as_str()).collect();
    let mut d = Decoder::new();
    let mut out = Vec::new();
    while let Some(name) = next_field(&mut d, &keys, &values) {
        assert_eq!(d.deserialize_identifier(), Ok(name.clone()));
        out.push((name, d.next_value_source().unwrap()));
    }
    out
}

#[test]
fn a_structure_written_into_an_empty_key_reads_back() {
    let mut reg = MemRegistry::default();
    let mut enc = Encoder::new("k".to_string());
    let mut root = match enc.serialize_struct("S", 3) {
        StructOpening::Root(stub) => stub,
        StructOpening::Subkey(_) => panic!("expected the root structure"),
    };
    root.serialize_field(&mut enc, "a");
    let w = enc.serialize_u32(5).unwrap();
    reg.set(enc.top_key(), w.name, w.value);
    root.serialize_field(&mut enc, "b");
    let w = enc.serialize_str("hi").unwrap();
    reg.set(enc.top_key(), w.name, w.value);
    root.serialize_field(&mut enc, "c");
    let sub = match enc.serialize_struct("Inner", 1) {
        StructOpening::Subkey(name) => name,
        StructOpening::Root(_) => panic!("expected a subkey"),
    };
    let path = reg.create_subkey(enc.top_key(), &sub);
    let mut inner = enc.push_subkey(path);
    inner.serialize_field(&mut enc, "x");
    let w = enc.serialize_i32(-3).unwrap();
    reg.set(enc.top_key(), w.name, w.value);
    assert_eq!(inner.end(&mut enc), Ok(()));
    assert_eq!(root.end(&mut enc), Ok(()));

    // the key holds REG_DWORD a, REG_SZ b and the subkey c with REG_SZ x
    assert_eq!(reg.get("k", "a").vtype, RegType::REG_DWORD);
    assert_eq!(reg.get("k", "b").vtype, RegType::REG_SZ);
    assert_eq!(reg.subkey_names("k"), vec!["c".to_string()]);
    assert_eq!(reg.get("k\\c", "x").vtype, RegType::REG_SZ);
    assert_eq!(read_string(&reg.get("k\\c", "x")), Ok("-3".to_string()));

    // reading it back finds c (a subkey), then a and b, each once
    let found = decode_fields(&reg, "k");
    assert_eq!(
        found,
        vec![
            ("c".to_string(), ValueSource::Subkey("c".to_string())),
            ("a".to_string(), ValueSource::CurrentKey),
            ("b".to_string(), ValueSource::CurrentKey),
        ]
    );
    assert_eq!(read_u32(&reg.get("k", "a")), Ok(5));
    assert_eq!(read_string(&reg.get("k", "b")), Ok("hi".to_string()));
    let inner_found = decode_fields(&reg, "k\\c");
    assert_eq!(inner_found, vec![("x".to_string(), ValueSource::CurrentKey)]);
    assert_eq!(read_i32(&reg.get("k\\c", "x")), Ok(-3));
}
