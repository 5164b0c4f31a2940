use winreg::text::{i64_text, parse_i16, parse_i32, parse_i64, parse_i8, IntErrorKind};
use winreg::utf16::{bytes_to_units, decode_lossy, encode_wide, units_to_bytes};
use winreg::value::{
    dword_value, qword_value, string_from_value, string_value, u32_from_value, u64_from_value,
    RegType, RegValue, ERROR_BAD_FILE_TYPE,
};

fn raw(bytes: &[u8], vtype: RegType) -> RegValue {
    RegValue { bytes: bytes.to_vec(), vtype }
}

fn utf16_bytes(s: &str) -> Vec<u8> {
    let mut out = Vec::new();
    for w in s.encode_utf16() {
        out.extend_from_slice(&w.to_le_bytes());
    }
    out
}

#[test]
fn type_codes_round_trip() {
    for code in 0..12u32 {
        let t = RegType::from_code(code).unwrap();
        assert_eq!(t.code(), code);
    }
    assert_eq!(RegType::from_code(12), None);
    assert_eq!(RegType::REG_SZ.code(), 1);
    assert_eq!(RegType::REG_DWORD.code(), 4);
    assert_eq!(RegType::REG_MULTI_SZ.code(), 7);
    assert_eq!(RegType::REG_QWORD.code(), 11);
}

#[test]
fn dword_is_little_endian() {
    let v = dword_value(0x1234_5678);
    assert_eq!(v.vtype, RegType::REG_DWORD);
    assert_eq!(v.bytes, vec![0x78, 0x56, 0x34, 0x12]);
    assert_eq!(u32_from_value(&v), Ok(0x1234_5678));
    for x in [0u32, 1, 255, 256, 65535, 65536, u32::MAX] {
        assert_eq!(dword_value(x).bytes, x.to_le_bytes().to_vec());
        assert_eq!(u32_from_value(&dword_value(x)), Ok(x));
    }
}

#[test]
fn qword_is_little_endian() {
    let v = qword_value(0x0102_0304_0506_0708);
    assert_eq!(v.vtype, RegType::REG_QWORD);
    assert_eq!(v.bytes, vec![8, 7, 6, 5, 4, 3, 2, 1]);
    for x in [0u64, 1, u32::MAX as u64, u32::MAX as u64 + 1, u64::MAX, 0xdead_beef_cafe_f00d] {
        assert_eq!(qword_value(x).bytes, x.to_le_bytes().to_vec());
        assert_eq!(u64_from_value(&qword_value(x)), Ok(x));
    }
}

#[test]
fn numbers_refuse_other_types() {
    assert_eq!(u32_from_value(&raw(&[1, 0, 0, 0], RegType::REG_BINARY)), Err(ERROR_BAD_FILE_TYPE));
    assert_eq!(u32_from_value(&qword_value(5)), Err(ERROR_BAD_FILE_TYPE));
    assert_eq!(u64_from_value(&dword_value(5)), Err(ERROR_BAD_FILE_TYPE));
    assert_eq!(u32_from_value(&raw(&[1, 0], RegType::REG_DWORD)), Err(ERROR_BAD_FILE_TYPE));
    assert_eq!(u64_from_value(&raw(&[1, 0, 0, 0], RegType::REG_QWORD)), Err(ERROR_BAD_FILE_TYPE));
    assert_eq!(ERROR_BAD_FILE_TYPE, 222);
}

#[test]
fn longer_number_values_read_their_first_bytes() {
    assert_eq!(u32_from_value(&raw(&[1, 2, 0, 0, 9, 9], RegType::REG_DWORD)), Ok(0x0201));
    assert_eq!(u64_from_value(&raw(&[1, 0, 0, 0, 0, 0, 0, 0, 7], RegType::REG_QWORD)), Ok(1));
}

#[test]
fn strings_are_nul_terminated_utf16() {
    let v = string_value("abc");
    assert_eq!(v.vtype, RegType::REG_SZ);
    assert_eq!(v.bytes, vec![97, 0, 98, 0, 99, 0, 0, 0]);
    let v = string_value("");
    assert_eq!(v.bytes, vec![0, 0]);
    for s in ["héllo", "黑风雷", "👨‍👩‍👧‍👦", "a\u{10FFFF}z", "line\nbreak"] {
        let mut expected = utf16_bytes(s);
        expected.extend_from_slice(&[0, 0]);
        assert_eq!(string_value(s).bytes, expected);
        assert_eq!(string_from_value(&string_value(s)).unwrap(), s);
    }
}

#[test]
fn string_reading_drops_trailing_nuls() {
    let mut bytes = utf16_bytes("value");
    bytes.extend_from_slice(&[0, 0, 0, 0, 0, 0]);
    assert_eq!(string_from_value(&raw(&bytes, RegType::REG_SZ)).unwrap(), "value");
    assert_eq!(string_from_value(&raw(&bytes, RegType::REG_EXPAND_SZ)).unwrap(), "value");
    assert_eq!(string_from_value(&raw(&[], RegType::REG_SZ)).unwrap(), "");
    // an odd trailing byte is ignored
    assert_eq!(string_from_value(&raw(&[104, 0, 105, 0, 7], RegType::REG_SZ)).unwrap(), "hi");
}

#[test]
fn multi_strings_join_with_newlines() {
    let bytes = utf16_bytes("one\0two\0three\0\0");
    assert_eq!(string_from_value(&raw(&bytes, RegType::REG_MULTI_SZ)).unwrap(), "one\ntwo\nthree");
    assert_eq!(string_from_value(&raw(&bytes, RegType::REG_SZ)).unwrap(), "one\0two\0three");
}

#[test]
fn strings_refuse_other_types() {
    assert_eq!(string_from_value(&dword_value(3)), Err(ERROR_BAD_FILE_TYPE));
    assert_eq!(string_from_value(&raw(&[0, 0], RegType::REG_BINARY)), Err(ERROR_BAD_FILE_TYPE));
}

#[test]
fn unpaired_surrogates_become_replacement_characters() {
    let cases: Vec<Vec<u16>> = vec![
        vec![0xD800],
        vec![0xDC00, 0x41],
        vec![0x41, 0xD83D, 0x42],
        vec![0xD83D, 0xDE00],
        vec![0xD83D, 0xD83D, 0xDE00],
        vec![0xDE00, 0xD83D],
        vec![0xFFFF, 0xE000, 0xD7FF],
    ];
    for units in cases {
        let expected: Vec<char> = String::from_utf16_lossy(&units).chars().collect();
        assert_eq!(decode_lossy(&units), expected);
        let bytes = units_to_bytes(&units);
        assert_eq!(bytes_to_units(&bytes), units);
    }
}

#[test]
fn encode_wide_matches_std() {
    for s in ["", "abc", "ü", "€uro", "𝄞 clef", "👨‍👩‍👧‍👦"] {
        let expected: Vec<u16> = s.encode_utf16().collect();
        assert_eq!(encode_wide(s), expected);
    }
}

#[test]
fn i64_text_matches_to_string() {
    for v in [0i64, 1, -1, 9, 10, -10, 99, 100, 12345, -98765, i64::MAX, i64::MIN, i64::MIN + 1] {
        assert_eq!(i64_text(v), v.to_string());
    }
}

fn debug_of(e: std::num::ParseIntError) -> String {
    format!("{:?}", e)
}

#[test]
fn parsing_matches_std() {
    let inputs = [
        "", "+", "-", "0", "-0", "+0", "127", "128", "-128", "-129", "+5", "--5", "+-5", "12a",
        "a12", " 1", "1 ", "00000000000000000000012", "32767", "32768", "-32768", "-32769",
        "2147483647", "2147483648", "-2147483648", "-2147483649", "9223372036854775807",
        "9223372036854775808", "-9223372036854775808", "-9223372036854775809",
        "99999999999999999999x", "1x99999999999999999999", "٣",
    ];
    for s in inputs {
        match (s.parse::<i8>(), parse_i8(s)) {
            (Ok(a), Ok(b)) => assert_eq!(a, b, "{:?}", s),
            (Err(e), Err(k)) => assert_eq!(debug_of(e), k.debug_text(), "{:?}", s),
            (a, b) => panic!("{:?}: {:?} vs {:?}", s, a, b),
        }
        match (s.parse::<i16>(), parse_i16(s)) {
            (Ok(a), Ok(b)) => assert_eq!(a, b, "{:?}", s),
            (Err(e), Err(k)) => assert_eq!(debug_of(e), k.debug_text(), "{:?}", s),
            (a, b) => panic!("{:?}: {:?} vs {:?}", s, a, b),
        }
        match (s.parse::<i32>(), parse_i32(s)) {
            (Ok(a), Ok(b)) => assert_eq!(a, b, "{:?}", s),
            (Err(e), Err(k)) => assert_eq!(debug_of(e), k.debug_text(), "{:?}", s),
            (a, b) => panic!("{:?}: {:?} vs {:?}", s, a, b),
        }
        match (s.parse::<i64>(), parse_i64(s)) {
            (Ok(a), Ok(b)) => assert_eq!(a, b, "{:?}", s),
            (Err(e), Err(k)) => assert_eq!(debug_of(e), k.debug_text(), "{:?}", s),
            (a, b) => panic!("{:?}: {:?} vs {:?}", s, a, b),
        }
    }
}

#[test]
fn parse_error_kinds() {
    assert_eq!(parse_i8(""), Err(IntErrorKind::Empty));
    assert_eq!(parse_i8("-"), Err(IntErrorKind::InvalidDigit));
    assert_eq!(parse_i8("x"), Err(IntErrorKind::InvalidDigit));
    assert_eq!(parse_i8("200"), Err(IntErrorKind::PosOverflow));
    assert_eq!(parse_i8("-200"), Err(IntErrorKind::NegOverflow));
    assert_eq!(IntErrorKind::PosOverflow.debug_text(), "ParseIntError { kind: PosOverflow }");
}

#[test]
fn integers_read_back_from_their_text() {
    for v in [i8::MIN, -1, 0, 1, i8::MAX] {
        assert_eq!(parse_i8(&i64_text(v as i64)), Ok(v));
    }
    for v in [i16::MIN, -300, 300, i16::MAX] {
        assert_eq!(parse_i16(&i64_text(v as i64)), Ok(v));
    }
    for v in [i32::MIN, -70000, 70000, i32::MAX] {
        assert_eq!(parse_i32(&i64_text(v as i64)), Ok(v));
    }
    for v in [i64::MIN, -5_000_000_000, 5_000_000_000, i64::MAX] {
        assert_eq!(parse_i64(&i64_text(v)), Ok(v));
    }
}
