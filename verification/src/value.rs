//! Registry values: their types, their raw bytes, and the conversions
//! between plain Rust values and the bytes the registry stores.

use vstd::prelude::*;

use crate::utf16::{
    bytes_of, bytes_to_units, decode, decode_lossy, encode, encode_wide, law_bytes_of_le,
    law_encode_bmp_text, lemma_decode_encode, lemma_units_of_bytes, push_char, units_of,
    units_to_bytes,
};

verus! {

/// Windows error code returned when a value has the wrong registry type
/// for the requested conversion (`ERROR_BAD_FILE_TYPE`).
pub const ERROR_BAD_FILE_TYPE: i32 = 222;

/// The type tag of a registry value.
#[allow(non_camel_case_types)]
#[derive(Debug, Clone, Copy, PartialEq, Eq, Structural)]
pub enum RegType {
    REG_NONE,
    REG_SZ,
    REG_EXPAND_SZ,
    REG_BINARY,
    REG_DWORD,
    REG_DWORD_BIG_ENDIAN,
    REG_LINK,
    REG_MULTI_SZ,
    REG_RESOURCE_LIST,
    REG_FULL_RESOURCE_DESCRIPTOR,
    REG_RESOURCE_REQUIREMENTS_LIST,
    REG_QWORD,
}

/// The numeric code of each registry type, as the Windows API numbers them.
pub open spec fn spec_type_code(t: RegType) -> u32 {
    match t {
        RegType::REG_NONE => 0,
        RegType::REG_SZ => 1,
        RegType::REG_EXPAND_SZ => 2,
        RegType::REG_BINARY => 3,
        RegType::REG_DWORD => 4,
        RegType::REG_DWORD_BIG_ENDIAN => 5,
        RegType::REG_LINK => 6,
        RegType::REG_MULTI_SZ => 7,
        RegType::REG_RESOURCE_LIST => 8,
        RegType::REG_FULL_RESOURCE_DESCRIPTOR => 9,
        RegType::REG_RESOURCE_REQUIREMENTS_LIST => 10,
        RegType::REG_QWORD => 11,
    }
}

impl RegType {
    /// The Windows API code of this type.
    pub fn code(&self) -> (r: u32)
        ensures
            r == spec_type_code(*self),
    {
        match self {
            RegType::REG_NONE => 0,
            RegType::REG_SZ => 1,
            RegType::REG_EXPAND_SZ => 2,
            RegType::REG_BINARY => 3,
            RegType::REG_DWORD => 4,
            RegType::REG_DWORD_BIG_ENDIAN => 5,
            RegType::REG_LINK => 6,
            RegType::REG_MULTI_SZ => 7,
            RegType::REG_RESOURCE_LIST => 8,
            RegType::REG_FULL_RESOURCE_DESCRIPTOR => 9,
            RegType::REG_RESOURCE_REQUIREMENTS_LIST => 10,
            RegType::REG_QWORD => 11,
        }
    }

    /// The type whose Windows API code is `code`, if there is one.
    pub fn from_code(code: u32) -> (r: Option<RegType>)
        ensures
            code <= 11 ==> (r matches Some(t) && spec_type_code(t) == code),
            code > 11 ==> r is None,
    {
        match code {
            0 => Some(RegType::REG_NONE),
            1 => Some(RegType::REG_SZ),
            2 => Some(RegType::REG_EXPAND_SZ),
            3 => Some(RegType::REG_BINARY),
            4 => Some(RegType::REG_DWORD),
            5 => Some(RegType::REG_DWORD_BIG_ENDIAN),
            6 => Some(RegType::REG_LINK),
            7 => Some(RegType::REG_MULTI_SZ),
            8 => Some(RegType::REG_RESOURCE_LIST),
            9 => Some(RegType::REG_FULL_RESOURCE_DESCRIPTOR),
            10 => Some(RegType::REG_RESOURCE_REQUIREMENTS_LIST),
            11 => Some(RegType::REG_QWORD),
            _ => None,
        }
    }
}

/// A raw registry value: its bytes as stored, and its type.
#[derive(Debug, Clone, PartialEq, Eq)]
pub struct RegValue {
    pub bytes: Vec<u8>,
    pub vtype: RegType,
}

/// The four little-endian bytes of a 32-bit word.
pub open spec fn le_bytes_u32(v: u32) -> Seq<u8> {
    seq![
        (v % 256) as u8,
        ((v / 0x100) % 256) as u8,
        ((v / 0x1_0000) % 256) as u8,
        (v / 0x100_0000) as u8,
    ]
}

/// The 32-bit word whose little-endian bytes open `b`.
pub open spec fn le_u32(b: Seq<u8>) -> u32
    recommends
        b.len() >= 4,
{
    (b[0] + 0x100 * b[1] + 0x1_0000 * b[2] + 0x100_0000 * b[3]) as u32
}

/// The eight little-endian bytes of a 64-bit word.
pub open spec fn le_bytes_u64(v: u64) -> Seq<u8> {
    le_bytes_u32((v % 0x1_0000_0000) as u32) + le_bytes_u32((v / 0x1_0000_0000) as u32)
}

/// The 64-bit word whose little-endian bytes open `b`.
pub open spec fn le_u64(b: Seq<u8>) -> u64
    recommends
        b.len() >= 8,
{
    (le_u32(b) + 0x1_0000_0000 * le_u32(b.subrange(4, 8))) as u64
}

/// What writing a `u32` stores: a `REG_DWORD` holding its little-endian bytes.
pub open spec fn spec_dword_value(v: u32) -> (Seq<u8>, RegType) {
    (le_bytes_u32(v), RegType::REG_DWORD)
}

/// What writing a `u64` stores: a `REG_QWORD` holding its little-endian bytes.
pub open spec fn spec_qword_value(v: u64) -> (Seq<u8>, RegType) {
    (le_bytes_u64(v), RegType::REG_QWORD)
}

/// What reading a `u32` from a value gives: the little-endian word in its first
/// four bytes when it is a `REG_DWORD` of at least four bytes, and the
/// bad-file-type error otherwise.
pub open spec fn spec_u32_of(bytes: Seq<u8>, t: RegType) -> Result<u32, i32> {
    if t == RegType::REG_DWORD && bytes.len() >= 4 {
        Ok(le_u32(bytes))
    } else {
        Err(ERROR_BAD_FILE_TYPE)
    }
}

/// What reading a `u64` from a value gives: the little-endian word in its first
/// eight bytes when it is a `REG_QWORD` of at least eight bytes, and the
/// bad-file-type error otherwise.
pub open spec fn spec_u64_of(bytes: Seq<u8>, t: RegType) -> Result<u64, i32> {
    if t == RegType::REG_QWORD && bytes.len() >= 8 {
        Ok(le_u64(bytes))
    } else {
        Err(ERROR_BAD_FILE_TYPE)
    }
}

proof fn lemma_le_u32_roundtrip(v: u32)
    ensures
        le_u32(le_bytes_u32(v)) == v,
{
    let b = le_bytes_u32(v);
    assert(b[0] == v % 256);
    assert(b[1] == (v / 0x100) % 256);
    assert(b[2] == (v / 0x1_0000) % 256);
    assert(b[3] == v / 0x100_0000) by {
        assert(v / 0x100_0000 < 256) by (bit_vector);
    }
    assert(v == v % 256 + 0x100 * ((v / 0x100) % 256) + 0x1_0000 * ((v / 0x1_0000) % 256)
        + 0x100_0000 * (v / 0x100_0000)) by (bit_vector);
}

proof fn lemma_le_u64_roundtrip(v: u64)
    ensures
        le_u64(le_bytes_u64(v)) == v,
{
    let lo = (v % 0x1_0000_0000) as u32;
    let hi = (v / 0x1_0000_0000) as u32;
    lemma_le_u32_roundtrip(lo);
    lemma_le_u32_roundtrip(hi);
    let b = le_bytes_u64(v);
    assert(b.subrange(0, 4) =~= le_bytes_u32(lo));
    assert(b.subrange(4, 8) =~= le_bytes_u32(hi));
    assert(le_u32(b) == le_u32(b.subrange(0, 4)));
    assert(v == v % 0x1_0000_0000 + 0x1_0000_0000 * (v / 0x1_0000_0000)) by (bit_vector);
}

/// Converts a `u32` to the value the registry stores for it.
pub fn dword_value(v: u32) -> (r: RegValue)
    ensures
        (r.bytes@, r.vtype) == spec_dword_value(v),
{
    let mut bytes: Vec<u8> = Vec::new();
    bytes.push((v % 256) as u8);
    bytes.push(((v / 0x100) % 256) as u8);
    bytes.push(((v / 0x1_0000) % 256) as u8);
    assert(v / 0x100_0000 < 256) by (bit_vector);
    bytes.push((v / 0x100_0000) as u8);
    assert(bytes@ =~= le_bytes_u32(v));
    RegValue { bytes, vtype: RegType::REG_DWORD }
}

/// Converts a `u64` to the value the registry stores for it.
pub fn qword_value(v: u64) -> (r: RegValue)
    ensures
        (r.bytes@, r.vtype) == spec_qword_value(v),
{
    let lo = dword_value((v % 0x1_0000_0000) as u32);
    let hi = dword_value((v / 0x1_0000_0000) as u32);
    let mut bytes = lo.bytes;
    let mut tail = hi.bytes;
    bytes.append(&mut tail);
    assert(bytes@ =~= le_bytes_u64(v));
    RegValue { bytes, vtype: RegType::REG_QWORD }
}

/// Reads a `u32` from a registry value: a `REG_DWORD` gives the
/// little-endian word in its first four bytes; any other type gives the
/// bad-file-type error.
pub fn u32_from_value(val: &RegValue) -> (r: Result<u32, i32>)
    ensures
        r == spec_u32_of(val.bytes@, val.vtype),
{
    if val.vtype == RegType::REG_DWORD && val.bytes.len() >= 4 {
        let b = &val.bytes;
        Ok(b[0] as u32 + 0x100 * (b[1] as u32) + 0x1_0000 * (b[2] as u32) + 0x100_0000
            * (b[3] as u32))
    } else {
        Err(ERROR_BAD_FILE_TYPE)
    }
}

/// Reads a `u64` from a registry value: a `REG_QWORD` gives the
/// little-endian word in its first eight bytes; any other type gives the
/// bad-file-type error.
pub fn u64_from_value(val: &RegValue) -> (r: Result<u64, i32>)
    ensures
        r == spec_u64_of(val.bytes@, val.vtype),
{
    if val.vtype == RegType::REG_QWORD && val.bytes.len() >= 8 {
        let b = &val.bytes;
        let lo: u64 = b[0] as u64 + 0x100 * (b[1] as u64) + 0x1_0000 * (b[2] as u64)
            + 0x100_0000 * (b[3] as u64);
        let hi: u64 = b[4] as u64 + 0x100 * (b[5] as u64) + 0x1_0000 * (b[6] as u64)
            + 0x100_0000 * (b[7] as u64);
        proof {
            let s = val.bytes@.subrange(4, 8);
            assert(s[0] == b[4] && s[1] == b[5] && s[2] == b[6] && s[3] == b[7]);
            assert(hi == le_u32(s));
            assert(lo == le_u32(val.bytes@));
        }
        Ok(lo + 0x1_0000_0000 * hi)
    } else {
        Err(ERROR_BAD_FILE_TYPE)
    }
}

/// Reading back a written `u32` gives the same number.
pub proof fn law_dword_roundtrip(v: u32)
    ensures
        spec_u32_of(spec_dword_value(v).0, spec_dword_value(v).1) == Ok::<u32, i32>(v),
{
    lemma_le_u32_roundtrip(v);
}

/// Reading back a written `u64` gives the same number.
pub proof fn law_qword_roundtrip(v: u64)
    ensures
        spec_u64_of(spec_qword_value(v).0, spec_qword_value(v).1) == Ok::<u64, i32>(v),
{
    lemma_le_u64_roundtrip(v);
}

/// Whether values of this type hold text.
pub open spec fn is_string_type(t: RegType) -> bool {
    t == RegType::REG_SZ || t == RegType::REG_EXPAND_SZ || t == RegType::REG_MULTI_SZ
}

/// The text without its trailing NUL characters.
pub open spec fn strip_trailing_nuls(s: Seq<char>) -> Seq<char>
    decreases s.len(),
{
    if s.len() > 0 && s.last() == '\0' {
        strip_trailing_nuls(s.drop_last())
    } else {
        s
    }
}

/// The text with every NUL character replaced by a line feed.
pub open spec fn nuls_to_newlines(s: Seq<char>) -> Seq<char> {
    Seq::new(s.len(), |i: int| if s[i] == '\0' { '\n' } else { s[i] })
}

/// What writing a text stores: a `REG_SZ` holding its UTF-16 code units
/// followed by one NUL unit, in little-endian bytes.
pub open spec fn spec_string_value(s: Seq<char>) -> (Seq<u8>, RegType) {
    (bytes_of(encode(s).push(0u16)), RegType::REG_SZ)
}

/// What reading a text from a value gives. Text types decode the
/// little-endian UTF-16 units of the bytes (unpaired surrogates become
/// U+FFFD) and drop the trailing NULs; a `REG_MULTI_SZ` has its remaining
/// NULs turned into line feeds. Any other type gives the bad-file-type error.
pub open spec fn spec_string_of(bytes: Seq<u8>, t: RegType) -> Result<Seq<char>, i32> {
    if is_string_type(t) {
        let s = strip_trailing_nuls(decode(units_of(bytes)));
        if t == RegType::REG_MULTI_SZ {
            Ok(nuls_to_newlines(s))
        } else {
            Ok(s)
        }
    } else {
        Err(ERROR_BAD_FILE_TYPE)
    }
}

/// Converts a text to the value the registry stores for it.
pub fn string_value(s: &str) -> (r: RegValue)
    ensures
        (r.bytes@, r.vtype) == spec_string_value(s@),
{
    let mut units = encode_wide(s);
    units.push(0u16);
    let bytes = units_to_bytes(units.as_slice());
    RegValue { bytes, vtype: RegType::REG_SZ }
}

proof fn lemma_strip_prefix(s: Seq<char>, end: int)
    requires
        0 < end <= s.len(),
        s[end - 1] == '\0',
    ensures
        strip_trailing_nuls(s.take(end)) == strip_trailing_nuls(s.take(end - 1)),
{
    assert(s.take(end).drop_last() =~= s.take(end - 1));
}

/// Reads a text from a registry value (see `spec_string_of`).
pub fn string_from_value(val: &RegValue) -> (r: Result<String, i32>)
    ensures
        match r {
            Ok(s) => spec_string_of(val.bytes@, val.vtype) == Ok::<Seq<char>, i32>(s@),
            Err(e) => spec_string_of(val.bytes@, val.vtype) == Err::<Seq<char>, i32>(e),
        },
{
    let t = val.vtype;
    if !(t == RegType::REG_SZ || t == RegType::REG_EXPAND_SZ || t == RegType::REG_MULTI_SZ) {
        return Err(ERROR_BAD_FILE_TYPE);
    }
    let units = bytes_to_units(val.bytes.as_slice());
    let chars = decode_lossy(units.as_slice());
    let mut end = chars.len();
    assert(chars@.take(end as int) =~= chars@);
    while end > 0 && chars[end - 1] == '\0'
        invariant
            end <= chars@.len(),
            strip_trailing_nuls(chars@.take(end as int)) == strip_trailing_nuls(chars@),
        decreases end,
    {
        proof {
            lemma_strip_prefix(chars@, end as int);
        }
        end = end - 1;
    }
    let ghost kept = chars@.take(end as int);
    assert(strip_trailing_nuls(kept) == kept) by {
        if end > 0 {
            assert(kept.last() == chars@[end - 1]);
        }
    }
    let multi = t == RegType::REG_MULTI_SZ;
    let ghost want = if multi { nuls_to_newlines(kept) } else { kept };
    let mut out = String::new();
    let mut i: usize = 0;
    while i < end
        invariant
            i <= end <= chars@.len(),
            kept == chars@.take(end as int),
            want == (if multi { nuls_to_newlines(kept) } else { kept }),
            out@ == want.take(i as int),
        decreases end - i,
    {
        let c = chars[i];
        let d = if multi && c == '\0' { '\n' } else { c };
        push_char(&mut out, d);
        proof {
            assert(want.take(i + 1) =~= want.take(i as int).push(d));
        }
        i = i + 1;
    }
    assert(want.take(end as int) =~= want);
    Ok(out)
}

/// Reading back a written text gives the same text, when the text does not
/// end with a NUL character (trailing NULs are dropped on reading).
pub proof fn law_string_roundtrip(s: Seq<char>)
    requires
        !(s.len() > 0 && s.last() == '\0'),
    ensures
        spec_string_of(spec_string_value(s).0, spec_string_value(s).1) == Ok::<Seq<char>, i32>(s),
{
    let w = encode(s).push(0u16);
    lemma_units_of_bytes(w);
    lemma_decode_encode(s, seq![0u16]);
    assert(w =~= encode(s) + seq![0u16]);
    let tail = seq![0u16];
    assert(tail.drop_first() =~= Seq::<u16>::empty());
    assert(decode(tail.drop_first()) =~= Seq::<char>::empty());
    assert(((0u16) as u32) as char == '\0');
    assert(decode(tail) =~= seq!['\0']);
    assert((s + seq!['\0']).drop_last() =~= s);
    assert(decode(w) == s + seq!['\0']);
    let t = s + seq!['\0'];
    assert(t.len() > 0 && t.last() == '\0');
    assert(strip_trailing_nuls(t) == strip_trailing_nuls(s));
    assert(strip_trailing_nuls(s) == s);
}

/// A `u32` is written as a `REG_DWORD` of exactly its four little-endian
/// bytes: byte `i` is `(v / 256^i) % 256`, and the bytes weighed by their
/// place give `v` back.
pub proof fn law_dword_bytes(v: u32)
    ensures
        spec_dword_value(v).1 == RegType::REG_DWORD,
        spec_dword_value(v).0.len() == 4,
        spec_dword_value(v).0[0] == v % 256,
        spec_dword_value(v).0[1] == (v / 0x100) % 256,
        spec_dword_value(v).0[2] == (v / 0x1_0000) % 256,
        spec_dword_value(v).0[3] == (v / 0x100_0000) % 256,
        spec_dword_value(v).0[0] + 0x100 * spec_dword_value(v).0[1] + 0x1_0000
            * spec_dword_value(v).0[2] + 0x100_0000 * spec_dword_value(v).0[3] == v,
{
    assert(v / 0x100_0000 < 256) by (bit_vector);
    assert(v == v % 256 + 0x100 * ((v / 0x100) % 256) + 0x1_0000 * ((v / 0x1_0000) % 256)
        + 0x100_0000 * (v / 0x100_0000)) by (bit_vector);
}

/// Reading a `u32` from a `REG_DWORD` of at least four bytes gives the
/// little-endian word of its first four bytes; any other value gives the
/// bad-file-type error.
pub proof fn law_dword_read(bytes: Seq<u8>, t: RegType)
    ensures
        t == RegType::REG_DWORD && bytes.len() >= 4 ==> (spec_u32_of(bytes, t) matches Ok(v) && v
            == bytes[0] + 0x100 * bytes[1] + 0x1_0000 * bytes[2] + 0x100_0000 * bytes[3]),
        !(t == RegType::REG_DWORD && bytes.len() >= 4) ==> spec_u32_of(bytes, t) == Err::<
            u32,
            i32,
        >(222),
{
}

/// A `u64` is written as a `REG_QWORD` of exactly its eight little-endian
/// bytes: byte `i` is `(v / 256^i) % 256`, and the bytes weighed by their
/// place give `v` back.
pub proof fn law_qword_bytes(v: u64)
    ensures
        spec_qword_value(v).1 == RegType::REG_QWORD,
        spec_qword_value(v).0.len() == 8,
        spec_qword_value(v).0[0] == v % 256,
        spec_qword_value(v).0[1] == (v / 0x100) % 256,
        spec_qword_value(v).0[2] == (v / 0x1_0000) % 256,
        spec_qword_value(v).0[3] == (v / 0x100_0000) % 256,
        spec_qword_value(v).0[4] == (v / 0x1_0000_0000) % 256,
        spec_qword_value(v).0[5] == (v / 0x100_0000_0000) % 256,
        spec_qword_value(v).0[6] == (v / 0x1_0000_0000_0000) % 256,
        spec_qword_value(v).0[7] == (v / 0x100_0000_0000_0000) % 256,
        spec_qword_value(v).0[0] + 0x100 * spec_qword_value(v).0[1] + 0x1_0000
            * spec_qword_value(v).0[2] + 0x100_0000 * spec_qword_value(v).0[3] + 0x1_0000_0000
            * spec_qword_value(v).0[4] + 0x100_0000_0000 * spec_qword_value(v).0[5]
            + 0x1_0000_0000_0000 * spec_qword_value(v).0[6] + 0x100_0000_0000_0000
            * spec_qword_value(v).0[7] == v,
{
    let lo = (v % 0x1_0000_0000) as u32;
    let hi = (v / 0x1_0000_0000) as u32;
    law_dword_bytes(lo);
    law_dword_bytes(hi);
    let b = spec_qword_value(v).0;
    assert(b == le_bytes_u32(lo) + le_bytes_u32(hi));
    assert(b[0] == le_bytes_u32(lo)[0] && b[1] == le_bytes_u32(lo)[1]);
    assert(b[2] == le_bytes_u32(lo)[2] && b[3] == le_bytes_u32(lo)[3]);
    assert(b[4] == le_bytes_u32(hi)[0] && b[5] == le_bytes_u32(hi)[1]);
    assert(b[6] == le_bytes_u32(hi)[2] && b[7] == le_bytes_u32(hi)[3]);
    assert(((v % 0x1_0000_0000) as u32) % 256 == v % 256) by (bit_vector);
    assert((((v % 0x1_0000_0000) as u32) / 0x100) % 256 == (v / 0x100) % 256) by (bit_vector);
    assert((((v % 0x1_0000_0000) as u32) / 0x1_0000) % 256 == (v / 0x1_0000) % 256)
        by (bit_vector);
    assert((((v % 0x1_0000_0000) as u32) / 0x100_0000) % 256 == (v / 0x100_0000) % 256)
        by (bit_vector);
    assert(((v / 0x1_0000_0000) as u32) % 256 == (v / 0x1_0000_0000) % 256) by (bit_vector);
    assert((((v / 0x1_0000_0000) as u32) / 0x100) % 256 == (v / 0x100_0000_0000) % 256)
        by (bit_vector);
    assert((((v / 0x1_0000_0000) as u32) / 0x1_0000) % 256 == (v / 0x1_0000_0000_0000) % 256)
        by (bit_vector);
    assert((((v / 0x1_0000_0000) as u32) / 0x100_0000) % 256 == (v / 0x100_0000_0000_0000)
        % 256) by (bit_vector);
    assert(v == v % 0x1_0000_0000 + 0x1_0000_0000 * (v / 0x1_0000_0000)) by (bit_vector);
}

/// Reading a `u64` from a `REG_QWORD` of at least eight bytes gives the
/// little-endian word of its first eight bytes; any other value gives the
/// bad-file-type error.
pub proof fn law_qword_read(bytes: Seq<u8>, t: RegType)
    ensures
        t == RegType::REG_QWORD && bytes.len() >= 8 ==> (spec_u64_of(bytes, t) matches Ok(v) && v
            == bytes[0] + 0x100 * bytes[1] + 0x1_0000 * bytes[2] + 0x100_0000 * bytes[3]
            + 0x1_0000_0000 * bytes[4] + 0x100_0000_0000 * bytes[5] + 0x1_0000_0000_0000
            * bytes[6] + 0x100_0000_0000_0000 * bytes[7]),
        !(t == RegType::REG_QWORD && bytes.len() >= 8) ==> spec_u64_of(bytes, t) == Err::<
            u64,
            i32,
        >(222),
{
    if t == RegType::REG_QWORD && bytes.len() >= 8 {
        let s = bytes.subrange(4, 8);
        assert(s[0] == bytes[4] && s[1] == bytes[5] && s[2] == bytes[6] && s[3] == bytes[7]);
    }
}

/// A text of characters below U+10000 is written as a `REG_SZ` of two
/// bytes per character, the low then the high byte of the number of the
/// character, followed by two zero bytes (the NUL unit).
pub proof fn law_string_value_bmp(s: Seq<char>)
    requires
        forall|i: int| 0 <= i < s.len() ==> (#[trigger] s[i] as u32) < 0x1_0000,
    ensures
        spec_string_value(s).1 == RegType::REG_SZ,
        spec_string_value(s).0.len() == 2 * s.len() + 2,
        forall|i: int|
            0 <= i < s.len() ==> spec_string_value(s).0[2 * i] == (#[trigger] s[i] as u32) % 256
                && spec_string_value(s).0[2 * i + 1] == (s[i] as u32) / 256,
        spec_string_value(s).0[2 * s.len() as int] == 0,
        spec_string_value(s).0[2 * s.len() as int + 1] == 0,
{
    law_encode_bmp_text(s);
    let w = encode(s).push(0u16);
    law_bytes_of_le(w);
    assert forall|i: int| 0 <= i < s.len() implies spec_string_value(s).0[2 * i] == (
    #[trigger] s[i] as u32) % 256 && spec_string_value(s).0[2 * i + 1] == (s[i] as u32) / 256 by {
        assert(w[i] == encode(s)[i]);
    }
    assert(w[s.len() as int] == 0);
}

proof fn lemma_strip_trailing_nuls(s: Seq<char>)
    ensures
        strip_trailing_nuls(s).len() <= s.len(),
        forall|i: int|
            0 <= i < strip_trailing_nuls(s).len() ==> #[trigger] strip_trailing_nuls(s)[i] == s[i],
        forall|i: int| strip_trailing_nuls(s).len() <= i < s.len() ==> #[trigger] s[i] == '\0',
        strip_trailing_nuls(s).len() == 0 || s[strip_trailing_nuls(s).len() - 1] != '\0',
    decreases s.len(),
{
    if s.len() > 0 && s.last() == '\0' {
        let init = s.drop_last();
        lemma_strip_trailing_nuls(init);
        assert forall|i: int| strip_trailing_nuls(s).len() <= i < s.len() implies #[trigger] s[i]
            == '\0' by {
            if i < s.len() - 1 {
                assert(init[i] == s[i]);
            }
        }
        assert forall|i: int| 0 <= i < strip_trailing_nuls(s).len() implies #[trigger] strip_trailing_nuls(s)[i] == s[i] by {
            assert(init[i] == s[i]);
        }
        if strip_trailing_nuls(s).len() > 0 {
            assert(init[strip_trailing_nuls(s).len() - 1] == s[strip_trailing_nuls(s).len() - 1]);
        }
    }
}

/// Reading a text: a `REG_SZ` or `REG_EXPAND_SZ` gives the characters that
/// its little-endian UTF-16 units decode to, up to and without the NULs at
/// the end (so the last character kept is not a NUL, and everything after
/// it is); a `REG_MULTI_SZ` gives the same characters with each NUL left
/// among them turned into a line feed; any other type gives the
/// bad-file-type error.
pub proof fn law_string_read(bytes: Seq<u8>, t: RegType)
    ensures
        !(t == RegType::REG_SZ || t == RegType::REG_EXPAND_SZ || t == RegType::REG_MULTI_SZ)
            ==> spec_string_of(bytes, t) == Err::<Seq<char>, i32>(222),
        t == RegType::REG_SZ || t == RegType::REG_EXPAND_SZ || t == RegType::REG_MULTI_SZ ==> {
            let d = decode(units_of(bytes));
            &&& spec_string_of(bytes, t) is Ok
            &&& spec_string_of(bytes, t)->Ok_0.len() <= d.len()
            &&& forall|i: int|
                0 <= i < spec_string_of(bytes, t)->Ok_0.len() ==> #[trigger] spec_string_of(
                    bytes,
                    t,
                )->Ok_0[i] == if t == RegType::REG_MULTI_SZ && d[i] == '\0' {
                    '\n'
                } else {
                    d[i]
                }
            &&& forall|i: int|
                spec_string_of(bytes, t)->Ok_0.len() <= i < d.len() ==> #[trigger] d[i] == '\0'
            &&& spec_string_of(bytes, t)->Ok_0.len() == 0 || d[spec_string_of(bytes, t)->Ok_0.len()
                - 1] != '\0'
        },
{
    let d = decode(units_of(bytes));
    lemma_strip_trailing_nuls(d);
}

} // verus!
