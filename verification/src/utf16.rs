//! UTF-16 as the registry stores strings: encoding text into 16-bit code
//! units, decoding code units back with U+FFFD for every unpaired
//! surrogate, and the little-endian byte layout of the units.

use vstd::prelude::*;

verus! {

/// The replacement character that lossy decoding puts for an unpaired surrogate.
pub const REPLACEMENT: char = '\u{FFFD}';

pub open spec fn is_high_surrogate(w: u16) -> bool {
    0xD800 <= w && w <= 0xDBFF
}

pub open spec fn is_low_surrogate(w: u16) -> bool {
    0xDC00 <= w && w <= 0xDFFF
}

/// The code units of one character.
pub open spec fn encode_char(c: char) -> Seq<u16> {
    let n = c as u32;
    if n < 0x1_0000 {
        seq![n as u16]
    } else {
        seq![(0xD800 + (n - 0x1_0000) / 0x400) as u16, (0xDC00 + (n - 0x1_0000) % 0x400) as u16]
    }
}

/// The code units of a text.
pub open spec fn encode(s: Seq<char>) -> Seq<u16>
    decreases s.len(),
{
    if s.len() == 0 {
        seq![]
    } else {
        encode(s.drop_last()) + encode_char(s.last())
    }
}

/// The character that a surrogate pair stands for.
pub open spec fn pair_char(hi: u16, lo: u16) -> char {
    (0x1_0000 + (hi - 0xD800) * 0x400 + (lo - 0xDC00)) as char
}

/// Lossy decoding: a surrogate pair gives its character, an unpaired
/// surrogate gives U+FFFD, any other unit gives the character it numbers.
pub open spec fn decode(w: Seq<u16>) -> Seq<char>
    decreases w.len(),
{
    if w.len() == 0 {
        seq![]
    } else if w.len() >= 2 && is_high_surrogate(w[0]) && is_low_surrogate(w[1]) {
        seq![pair_char(w[0], w[1])] + decode(w.subrange(2, w.len() as int))
    } else if is_high_surrogate(w[0]) || is_low_surrogate(w[0]) {
        seq![REPLACEMENT] + decode(w.drop_first())
    } else {
        seq![(w[0] as u32) as char] + decode(w.drop_first())
    }
}

/// The little-endian bytes of a sequence of code units.
pub open spec fn bytes_of(w: Seq<u16>) -> Seq<u8> {
    Seq::new(
        2 * w.len(),
        |i: int| if i % 2 == 0 { (w[i / 2] % 256) as u8 } else { (w[i / 2] / 256) as u8 },
    )
}

/// The code units held in little-endian bytes; an odd last byte is ignored.
pub open spec fn units_of(b: Seq<u8>) -> Seq<u16> {
    Seq::new(b.len() / 2, |i: int| (b[2 * i] + 256 * b[2 * i + 1]) as u16)
}

/// Wraps `String::push`, which appends one character to the end of the
/// string; the contract claims exactly that of the string's characters.
#[verifier::external_body]
pub(crate) fn push_char(s: &mut String, c: char)
    ensures
        final(s)@ == old(s)@.push(c),
{
    s.push(c)
}

/// Wraps `char::from_u32`, which gives the character whose scalar value is
/// `v`, or `None` when `v` is a surrogate code or above 0x10FFFF; the
/// contract claims exactly that.
#[verifier::external_body]
fn char_from_u32(v: u32) -> (r: Option<char>)
    ensures
        (v < 0xD800 || (0xE000 <= v && v <= 0x10FFFF)) ==> r == Some(v as char),
        !(v < 0xD800 || (0xE000 <= v && v <= 0x10FFFF)) ==> r is None,
{
    char::from_u32(v)
}

proof fn lemma_char_range(c: char)
    ensures
        (c as u32) <= 0x10FFFF,
{
}

/// Encoding distributes over concatenation.
pub proof fn lemma_encode_append(a: Seq<char>, b: Seq<char>)
    ensures
        encode(a + b) == encode(a) + encode(b),
    decreases b.len(),
{
    if b.len() == 0 {
        assert(a + b =~= a);
        assert(encode(b) =~= Seq::<u16>::empty());
        assert(encode(a) + encode(b) =~= encode(a));
    } else {
        lemma_encode_append(a, b.drop_last());
        assert((a + b).drop_last() =~= a + b.drop_last());
        assert((a + b).last() == b.last());
        assert(encode(a) + encode(b) =~= encode(a) + encode(b.drop_last()) + encode_char(b.last()));
    }
}

/// Decoding the units of one character gives that character, whatever follows.
proof fn lemma_decode_char(c: char, rest: Seq<u16>)
    ensures
        decode(encode_char(c) + rest) == seq![c] + decode(rest),
{
    let w = encode_char(c) + rest;
    let n = c as u32;
    if n < 0x1_0000 {
        assert(w[0] == n as u16);
        assert(w.drop_first() =~= rest);
        assert(((n as u16) as u32) as char == c);
    } else {
        let m = n - 0x1_0000;
        let hi = (0xD800 + m / 0x400) as u16;
        let lo = (0xDC00 + m % 0x400) as u16;
        assert(m < 0x10_0000);
        assert(m / 0x400 < 0x400) by (nonlinear_arith)
            requires
                m < 0x10_0000,
        ;
        assert(m % 0x400 < 0x400);
        assert(w[0] == hi && w[1] == lo);
        assert(w.subrange(2, w.len() as int) =~= rest);
        assert((hi - 0xD800) * 0x400 + (lo - 0xDC00) == m) by (nonlinear_arith)
            requires
                hi == 0xD800 + m / 0x400,
                lo == 0xDC00 + m % 0x400,
        ;
        assert(pair_char(hi, lo) == c);
    }
}

/// Decoding an encoded text gives it back, whatever follows.
pub proof fn lemma_decode_encode(s: Seq<char>, rest: Seq<u16>)
    ensures
        decode(encode(s) + rest) == s + decode(rest),
    decreases s.len(),
{
    if s.len() == 0 {
        assert(encode(s) + rest =~= rest);
        assert(s + decode(rest) =~= decode(rest));
    } else {
        let tail = s.drop_first();
        assert(s =~= seq![s[0]] + tail);
        lemma_encode_append(seq![s[0]], tail);
        assert(seq![s[0]].drop_last() =~= Seq::<char>::empty());
        assert(encode(seq![s[0]].drop_last()) =~= Seq::<u16>::empty());
        assert(encode(seq![s[0]]) =~= encode_char(s[0]));
        lemma_decode_encode(tail, rest);
        lemma_decode_char(s[0], encode(tail) + rest);
        assert(encode(s) + rest =~= encode_char(s[0]) + (encode(tail) + rest));
        assert(s + decode(rest) =~= seq![s[0]] + (tail + decode(rest)));
    }
}

/// The units of the bytes of some units are those units.
pub proof fn lemma_units_of_bytes(w: Seq<u16>)
    ensures
        units_of(bytes_of(w)) == w,
{
    let b = bytes_of(w);
    assert forall|i: int| 0 <= i < w.len() implies #[trigger] units_of(b)[i] == w[i] by {
        assert((2 * i) % 2 == 0 && (2 * i) / 2 == i);
        assert((2 * i + 1) % 2 == 1 && (2 * i + 1) / 2 == i);
        let x = w[i];
        assert(x % 256 + 256 * (x / 256) == x) by (nonlinear_arith);
    }
    assert(units_of(b) =~= w);
}

/// The UTF-16 code units of a text.
pub fn encode_wide(s: &str) -> (r: Vec<u16>)
    ensures
        r@ == encode(s@),
{
    let mut out: Vec<u16> = Vec::new();
    let ghost mut k: int = 0;
    for c in it: s.chars()
        invariant
            it.seq() == s@,
            k == it.index(),
            out@ == encode(s@.take(k)),
    {
        let ghost done = it.seq().take(it.index() as int);
        proof {
            assert(it.seq().take(it.index() + 1).drop_last() =~= done);
        }
        proof {
            lemma_char_range(c);
        }
        let n = c as u32;
        if n < 0x1_0000 {
            out.push(n as u16);
        } else {
            let m = n - 0x1_0000;
            assert(m / 0x400 < 0x400) by (nonlinear_arith)
                requires
                    m < 0x10_0000,
            ;
            out.push((0xD800 + m / 0x400) as u16);
            out.push((0xDC00 + m % 0x400) as u16);
        }
        proof {
            assert(out@ =~= encode(done) + encode_char(c));
            k = k + 1;
        }
    }
    proof {
        assert(s@.take(k) =~= s@);
    }
    out
}

/// Decodes UTF-16 code units, putting U+FFFD for every unpaired surrogate.
pub fn decode_lossy(w: &[u16]) -> (r: Vec<char>)
    ensures
        r@ == decode(w@),
{
    let mut out: Vec<char> = Vec::new();
    let mut i: usize = 0;
    assert(w@.skip(0) =~= w@);
    while i < w.len()
        invariant
            i <= w.len(),
            out@ + decode(w@.skip(i as int)) == decode(w@),
        decreases w.len() - i,
    {
        let ghost rest = w@.skip(i as int);
        let ghost before = out@;
        let u = w[i];
        if i + 1 < w.len() && 0xD800 <= u && u <= 0xDBFF && 0xDC00 <= w[i + 1] && w[i + 1]
            <= 0xDFFF {
            let lo = w[i + 1];
            let v: u32 = 0x1_0000 + (u as u32 - 0xD800) * 0x400 + (lo as u32 - 0xDC00);
            let c = match char_from_u32(v) {
                Some(c) => c,
                None => REPLACEMENT,
            };
            proof {
                assert(rest[0] == u && rest[1] == lo);
                assert(rest.subrange(2, rest.len() as int) =~= w@.skip(i + 2));
                assert(c == pair_char(u, lo));
            }
            out.push(c);
            i = i + 2;
        } else if 0xD800 <= u && u <= 0xDFFF {
            proof {
                assert(rest[0] == u);
                assert(rest.drop_first() =~= w@.skip(i + 1));
            }
            out.push(REPLACEMENT);
            i = i + 1;
        } else {
            let c = match char_from_u32(u as u32) {
                Some(c) => c,
                None => REPLACEMENT,
            };
            proof {
                assert(rest[0] == u);
                assert(rest.drop_first() =~= w@.skip(i + 1));
            }
            out.push(c);
            i = i + 1;
        }
        proof {
            assert(out@ + decode(w@.skip(i as int)) =~= before + decode(rest));
        }
    }
    assert(w@.skip(i as int) =~= Seq::<u16>::empty());
    assert(out@ + decode(w@.skip(i as int)) =~= out@);
    out
}

/// The little-endian bytes of code units.
pub fn units_to_bytes(w: &[u16]) -> (r: Vec<u8>)
    ensures
        r@ == bytes_of(w@),
{
    let mut out: Vec<u8> = Vec::new();
    let mut i: usize = 0;
    while i < w.len()
        invariant
            i <= w.len(),
            out@.len() == 2 * i,
            forall|j: int| 0 <= j < 2 * i ==> #[trigger] out@[j] == bytes_of(w@)[j],
        decreases w.len() - i,
    {
        let x = w[i];
        out.push((x % 256) as u8);
        out.push((x / 256) as u8);
        proof {
            assert((2 * i) % 2 == 0 && (2 * i) / 2 == i as int);
            assert((2 * i + 1) % 2 == 1 && (2 * i + 1) / 2 == i as int);
        }
        i = i + 1;
    }
    assert(out@ =~= bytes_of(w@));
    out
}

/// The code units held in little-endian bytes; an odd last byte is ignored.
pub fn bytes_to_units(b: &[u8]) -> (r: Vec<u16>)
    ensures
        r@ == units_of(b@),
{
    let mut out: Vec<u16> = Vec::new();
    let n = b.len() / 2;
    let mut i: usize = 0;
    while i < n
        invariant
            n == b.len() / 2,
            i <= n,
            out@.len() == i,
            forall|j: int| 0 <= j < i ==> #[trigger] out@[j] == units_of(b@)[j],
        decreases n - i,
    {
        let u: u16 = b[2 * i] as u16 + 256 * (b[2 * i + 1] as u16);
        out.push(u);
        i = i + 1;
    }
    assert(out@ =~= units_of(b@));
    out
}

/// Each character is encoded as UTF-16 prescribes: a character below
/// U+10000 as the one unit that numbers it; any other as a high surrogate
/// (0xD800..=0xDBFF) and a low surrogate (0xDC00..=0xDFFF) whose ten-bit
/// parts, above 0x10000, number it.
pub proof fn law_encode_char_utf16(c: char)
    ensures
        (c as u32) < 0x1_0000 ==> encode(seq![c]).len() == 1 && (encode(seq![c])[0] as u32) == (c
            as u32),
        (c as u32) >= 0x1_0000 ==> {
            let w = encode(seq![c]);
            &&& w.len() == 2
            &&& 0xD800 <= w[0] <= 0xDBFF
            &&& 0xDC00 <= w[1] <= 0xDFFF
            &&& 0x1_0000 + (w[0] - 0xD800) * 0x400 + (w[1] - 0xDC00) == (c as u32)
        },
{
    let one = seq![c];
    assert(one.drop_last() =~= Seq::<char>::empty());
    assert(encode(one.drop_last()) =~= Seq::<u16>::empty());
    assert(one.last() == c);
    assert(encode(one) =~= encode_char(c));
    let n = c as u32;
    if n >= 0x1_0000 {
        lemma_char_range(c);
        let m = n - 0x1_0000;
        assert(m / 0x400 < 0x400) by (nonlinear_arith)
            requires
                m < 0x10_0000,
        ;
        let hi = (0xD800 + m / 0x400) as u16;
        let lo = (0xDC00 + m % 0x400) as u16;
        assert((hi - 0xD800) * 0x400 + (lo - 0xDC00) == m) by (nonlinear_arith)
            requires
                hi == 0xD800 + m / 0x400,
                lo == 0xDC00 + m % 0x400,
        ;
    }
}

/// A text is encoded character by character: the empty text gives no
/// units, and the units of two texts joined are their units joined.
pub proof fn law_encode_concat(a: Seq<char>, b: Seq<char>)
    ensures
        encode(Seq::<char>::empty()) == Seq::<u16>::empty(),
        encode(a + b) == encode(a) + encode(b),
{
    lemma_encode_append(a, b);
}

/// A text of characters below U+10000 is encoded as one unit per
/// character, each unit numbering its character.
pub proof fn law_encode_bmp_text(s: Seq<char>)
    requires
        forall|i: int| 0 <= i < s.len() ==> (#[trigger] s[i] as u32) < 0x1_0000,
    ensures
        encode(s).len() == s.len(),
        forall|i: int| 0 <= i < s.len() ==> (#[trigger] encode(s)[i] as u32) == (s[i] as u32),
    decreases s.len(),
{
    if s.len() > 0 {
        let init = s.drop_last();
        assert forall|i: int| 0 <= i < init.len() implies (#[trigger] init[i] as u32) < 0x1_0000 by {
            assert(init[i] == s[i]);
        }
        law_encode_bmp_text(init);
        assert(s.last() == s[s.len() - 1]);
        law_encode_char_utf16(s.last());
        let one = seq![s.last()];
        assert(one.drop_last() =~= Seq::<char>::empty());
        assert(encode(one.drop_last()) =~= Seq::<u16>::empty());
        assert(encode(one) =~= encode_char(s.last()));
        assert forall|i: int| 0 <= i < s.len() implies (#[trigger] encode(s)[i] as u32) == (
        s[i] as u32) by {
            if i < s.len() - 1 {
                assert(encode(s)[i] == encode(init)[i]);
                assert(init[i] == s[i]);
            }
        }
    }
}

/// Lossy decoding reads units from the front: no units give no text; a
/// unit outside 0xD800..=0xDFFF gives the character it numbers; a high
/// surrogate followed by a low one gives the character their ten-bit parts
/// number above 0x10000; any other surrogate gives U+FFFD; and the rest is
/// decoded in the same way.
pub proof fn law_decode_units(w: Seq<u16>)
    ensures
        w.len() == 0 ==> decode(w) == Seq::<char>::empty(),
        w.len() >= 1 && !(0xD800 <= w[0] <= 0xDFFF) ==> {
            &&& decode(w).len() >= 1
            &&& (decode(w)[0] as u32) == (w[0] as u32)
            &&& decode(w).drop_first() == decode(w.drop_first())
        },
        w.len() >= 2 && 0xD800 <= w[0] <= 0xDBFF && 0xDC00 <= w[1] <= 0xDFFF ==> {
            &&& decode(w).len() >= 1
            &&& (decode(w)[0] as u32) == 0x1_0000 + (w[0] - 0xD800) * 0x400 + (w[1] - 0xDC00)
            &&& decode(w).drop_first() == decode(w.subrange(2, w.len() as int))
        },
        w.len() >= 1 && 0xD800 <= w[0] <= 0xDFFF && !(w.len() >= 2 && 0xD800 <= w[0] <= 0xDBFF
            && 0xDC00 <= w[1] <= 0xDFFF) ==> {
            &&& decode(w).len() >= 1
            &&& decode(w)[0] == '\u{FFFD}'
            &&& decode(w).drop_first() == decode(w.drop_first())
        },
{
    if w.len() >= 1 {
        if w.len() >= 2 && 0xD800 <= w[0] <= 0xDBFF && 0xDC00 <= w[1] <= 0xDFFF {
            let x = 0x1_0000 + (w[0] - 0xD800) * 0x400 + (w[1] - 0xDC00);
            assert(0x1_0000 <= x <= 0x10_FFFF) by (nonlinear_arith)
                requires
                    x == 0x1_0000 + (w[0] - 0xD800) * 0x400 + (w[1] - 0xDC00),
                    0xD800 <= w[0] <= 0xDBFF,
                    0xDC00 <= w[1] <= 0xDFFF,
            ;
            assert(decode(w) == seq![pair_char(w[0], w[1])] + decode(w.subrange(2, w.len() as int)));
            assert((pair_char(w[0], w[1]) as u32) == x);
            assert(decode(w).drop_first() =~= decode(w.subrange(2, w.len() as int)));
        } else if 0xD800 <= w[0] <= 0xDFFF {
            assert(decode(w).drop_first() =~= decode(w.drop_first()));
        } else {
            assert((((w[0] as u32) as char) as u32) == (w[0] as u32));
            assert(decode(w).drop_first() =~= decode(w.drop_first()));
        }
    }
}

/// The bytes of code units are each unit's low byte then its high byte.
pub proof fn law_bytes_of_le(w: Seq<u16>)
    ensures
        bytes_of(w).len() == 2 * w.len(),
        forall|i: int|
            0 <= i < w.len() ==> bytes_of(w)[2 * i] == #[trigger] w[i] % 256 && bytes_of(w)[2 * i
                + 1] == w[i] / 256,
{
    assert forall|i: int| 0 <= i < w.len() implies bytes_of(w)[2 * i] == #[trigger] w[i] % 256
        && bytes_of(w)[2 * i + 1] == w[i] / 256 by {
        assert((2 * i) % 2 == 0 && (2 * i) / 2 == i);
        assert((2 * i + 1) % 2 == 1 && (2 * i + 1) / 2 == i);
    }
}

/// The code units held in bytes are made of consecutive pairs, low byte
/// first; an odd last byte is not part of any unit.
pub proof fn law_units_of_le(b: Seq<u8>)
    ensures
        units_of(b).len() == b.len() / 2,
        forall|i: int|
            0 <= i < b.len() / 2 ==> (#[trigger] units_of(b)[i] as int) == b[2 * i] + 256 * b[2 * i
                + 1],
{
}

} // verus!
