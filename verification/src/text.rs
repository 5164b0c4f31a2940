//! Signed integers as decimal text: the text written for an integer, and the
//! integer read back from a text, with the same outcomes as Rust's own
//! integer parsing.

use vstd::prelude::*;

use crate::utf16::push_char;

verus! {

/// Why a text is not an integer of the requested width.
#[derive(Debug, Clone, Copy, PartialEq, Eq, Structural)]
pub enum IntErrorKind {
    Empty,
    InvalidDigit,
    PosOverflow,
    NegOverflow,
}

/// The character of a decimal digit.
pub open spec fn digit_char(d: nat) -> char {
    ((48 + d) as u32) as char
}

pub open spec fn is_digit(c: char) -> bool {
    48 <= (c as u32) && (c as u32) <= 57
}

pub open spec fn digit_value(c: char) -> nat {
    ((c as u32) - 48) as nat
}

/// The decimal digits of a natural number, most significant first, without
/// leading zeros.
pub open spec fn nat_digits(n: nat) -> Seq<char>
    decreases n,
{
    if n < 10 {
        seq![digit_char(n)]
    } else {
        nat_digits(n / 10).push(digit_char(n % 10))
    }
}

/// The decimal text of an integer: a minus sign for negative numbers, then
/// the digits of its magnitude.
pub open spec fn int_text(v: int) -> Seq<char> {
    if v < 0 {
        seq!['-'] + nat_digits((-v) as nat)
    } else {
        nat_digits(v as nat)
    }
}

/// The outcome of reading digits.
pub enum Scan {
    Value(int),
    Invalid,
    Overflow,
}

/// Reads the digits of `s` from left to right onto the magnitude `acc`;
/// a character that is not a digit stops with `Invalid`, and a magnitude
/// above `limit` stops with `Overflow`, whichever comes first.
pub open spec fn scan(s: Seq<char>, acc: int, limit: int) -> Scan
    decreases s.len(),
{
    if s.len() == 0 {
        Scan::Value(acc)
    } else if !is_digit(s[0]) {
        Scan::Invalid
    } else if 10 * acc + digit_value(s[0]) > limit {
        Scan::Overflow
    } else {
        scan(s.drop_first(), 10 * acc + digit_value(s[0]), limit)
    }
}

/// What reading an integer in `[min, max]` from the text `s` gives: an
/// empty text is `Empty`; a lone sign is `InvalidDigit`; otherwise an
/// optional `+` or `-` is followed by digits, where a non-digit gives
/// `InvalidDigit` and a value out of range gives `PosOverflow` (or
/// `NegOverflow` after a minus sign), whichever comes first.
pub open spec fn spec_parse_int(s: Seq<char>, min: int, max: int) -> Result<int, IntErrorKind> {
    if s.len() == 0 {
        Err(IntErrorKind::Empty)
    } else if (s[0] == '+' || s[0] == '-') && s.len() == 1 {
        Err(IntErrorKind::InvalidDigit)
    } else {
        let neg = s[0] == '-';
        let digits = if s[0] == '+' || s[0] == '-' {
            s.drop_first()
        } else {
            s
        };
        match scan(digits, 0, if neg { -min } else { max }) {
            Scan::Value(m) => Ok(if neg { -m } else { m }),
            Scan::Invalid => Err(IntErrorKind::InvalidDigit),
            Scan::Overflow => Err(
                if neg {
                    IntErrorKind::NegOverflow
                } else {
                    IntErrorKind::PosOverflow
                },
            ),
        }
    }
}

/// The text that Rust's `Debug` gives for a `ParseIntError` of this kind.
pub open spec fn spec_error_text(k: IntErrorKind) -> Seq<char> {
    match k {
        IntErrorKind::Empty => "ParseIntError { kind: Empty }"@,
        IntErrorKind::InvalidDigit => "ParseIntError { kind: InvalidDigit }"@,
        IntErrorKind::PosOverflow => "ParseIntError { kind: PosOverflow }"@,
        IntErrorKind::NegOverflow => "ParseIntError { kind: NegOverflow }"@,
    }
}

impl IntErrorKind {
    /// The text that Rust's `Debug` gives for a `ParseIntError` of this kind.
    pub fn debug_text(&self) -> (r: String)
        ensures
            r@ == spec_error_text(*self),
    {
        match self {
            IntErrorKind::Empty => "ParseIntError { kind: Empty }".to_owned(),
            IntErrorKind::InvalidDigit => "ParseIntError { kind: InvalidDigit }".to_owned(),
            IntErrorKind::PosOverflow => "ParseIntError { kind: PosOverflow }".to_owned(),
            IntErrorKind::NegOverflow => "ParseIntError { kind: NegOverflow }".to_owned(),
        }
    }
}

fn digit(d: u64) -> (c: char)
    requires
        d < 10,
    ensures
        c == digit_char(d as nat),
{
    let b: u8 = 48 + d as u8;
    b as char
}

fn push_digits(out: &mut String, n: u64)
    ensures
        final(out)@ == old(out)@ + nat_digits(n as nat),
    decreases n,
{
    if n >= 10 {
        push_digits(out, n / 10);
    }
    let c = digit(n % 10);
    push_char(out, c);
    proof {
        if n >= 10 {
            assert(old(out)@ + nat_digits(n as nat) =~= old(out)@ + nat_digits((n / 10) as nat)
                + seq![c]);
        } else {
            assert(old(out)@ + nat_digits(n as nat) =~= old(out)@ + seq![c]);
        }
    }
}

/// The decimal text of `v`, as `i64::to_string` writes it.
pub fn i64_text(v: i64) -> (r: String)
    ensures
        r@ == int_text(v as int),
{
    let mut out = String::new();
    if v < 0 {
        push_char(&mut out, '-');
        let mag: u64 = ((-(v + 1)) as u64) + 1;
        push_digits(&mut out, mag);
    } else {
        push_digits(&mut out, v as u64);
    }
    out
}

/// The characters of a text.
pub fn chars_of(s: &str) -> (r: Vec<char>)
    ensures
        r@ == s@,
{
    let mut out: Vec<char> = Vec::new();
    let ghost mut k: int = 0;
    for c in it: s.chars()
        invariant
            it.seq() == s@,
            k == it.index(),
            out@ == s@.take(k),
    {
        proof {
            assert(s@.take(k + 1) =~= s@.take(k).push(c));
            k = k + 1;
        }
        out.push(c);
    }
    assert(s@.take(k) =~= s@);
    out
}

/// Reads an integer in `[min, max]` from decimal text (see `spec_parse_int`).
pub fn parse_int(s: &str, min: i64, max: i64) -> (r: Result<i64, IntErrorKind>)
    requires
        min < 0 < max,
    ensures
        r matches Ok(v) ==> min <= v <= max,
        match r {
            Ok(v) => spec_parse_int(s@, min as int, max as int) == Ok::<int, IntErrorKind>(
                v as int,
            ),
            Err(k) => spec_parse_int(s@, min as int, max as int) == Err::<int, IntErrorKind>(k),
        },
{
    let cs = chars_of(s);
    if cs.len() == 0 {
        return Err(IntErrorKind::Empty);
    }
    let first = cs[0];
    if (first == '+' || first == '-') && cs.len() == 1 {
        return Err(IntErrorKind::InvalidDigit);
    }
    let neg = first == '-';
    let start: usize = if first == '+' || first == '-' {
        1
    } else {
        0
    };
    let limit: u128 = if neg {
        ((-(min + 1)) as u128) + 1
    } else {
        max as u128
    };
    let ghost digits = cs@.skip(start as int);
    assert(digits =~= (if first == '+' || first == '-' {
        s@.drop_first()
    } else {
        s@
    }));
    let mut acc: u128 = 0;
    let mut i: usize = start;
    while i < cs.len()
        invariant
            cs@ == s@,
            s@.len() >= 1,
            min < 0 < max,
            neg == (s@[0] == '-'),
            !((s@[0] == '+' || s@[0] == '-') && s@.len() == 1),
            start == (if s@[0] == '+' || s@[0] == '-' {
                1usize
            } else {
                0usize
            }),
            limit as int == (if neg {
                -min
            } else {
                max as int
            }),
            start <= i <= cs@.len(),
            limit <= 0x8000_0000_0000_0000,
            acc <= limit,
            digits == cs@.skip(start as int),
            digits == (if s@[0] == '+' || s@[0] == '-' {
                s@.drop_first()
            } else {
                s@
            }),
            scan(digits, 0, limit as int) == scan(cs@.skip(i as int), acc as int, limit as int),
        decreases cs.len() - i,
    {
        let c = cs[i];
        let code = c as u32;
        proof {
            assert(cs@.skip(i as int)[0] == c);
            assert(cs@.skip(i as int).drop_first() =~= cs@.skip(i + 1));
        }
        if code < 48 || code > 57 {
            return Err(IntErrorKind::InvalidDigit);
        }
        let next: u128 = 10 * acc + (code - 48) as u128;
        if next > limit {
            return Err(
                if neg {
                    IntErrorKind::NegOverflow
                } else {
                    IntErrorKind::PosOverflow
                },
            );
        }
        acc = next;
        i = i + 1;
    }
    assert(cs@.skip(i as int) =~= Seq::<char>::empty());
    if neg {
        Ok((-(acc as i128)) as i64)
    } else {
        Ok(acc as i64)
    }
}

/// Reads an `i8` from decimal text, as `str::parse::<i8>` does.
pub fn parse_i8(s: &str) -> (r: Result<i8, IntErrorKind>)
    ensures
        match r {
            Ok(v) => spec_parse_int(s@, i8::MIN as int, i8::MAX as int) == Ok::<int, IntErrorKind>(
                v as int,
            ),
            Err(k) => spec_parse_int(s@, i8::MIN as int, i8::MAX as int) == Err::<
                int,
                IntErrorKind,
            >(k),
        },
{
    match parse_int(s, i8::MIN as i64, i8::MAX as i64) {
        Ok(v) => Ok(v as i8),
        Err(k) => Err(k),
    }
}

/// Reads an `i16` from decimal text, as `str::parse::<i16>` does.
pub fn parse_i16(s: &str) -> (r: Result<i16, IntErrorKind>)
    ensures
        match r {
            Ok(v) => spec_parse_int(s@, i16::MIN as int, i16::MAX as int) == Ok::<
                int,
                IntErrorKind,
            >(v as int),
            Err(k) => spec_parse_int(s@, i16::MIN as int, i16::MAX as int) == Err::<
                int,
                IntErrorKind,
            >(k),
        },
{
    match parse_int(s, i16::MIN as i64, i16::MAX as i64) {
        Ok(v) => Ok(v as i16),
        Err(k) => Err(k),
    }
}

/// Reads an `i32` from decimal text, as `str::parse::<i32>` does.
pub fn parse_i32(s: &str) -> (r: Result<i32, IntErrorKind>)
    ensures
        match r {
            Ok(v) => spec_parse_int(s@, i32::MIN as int, i32::MAX as int) == Ok::<
                int,
                IntErrorKind,
            >(v as int),
            Err(k) => spec_parse_int(s@, i32::MIN as int, i32::MAX as int) == Err::<
                int,
                IntErrorKind,
            >(k),
        },
{
    match parse_int(s, i32::MIN as i64, i32::MAX as i64) {
        Ok(v) => Ok(v as i32),
        Err(k) => Err(k),
    }
}

/// Reads an `i64` from decimal text, as `str::parse::<i64>` does.
pub fn parse_i64(s: &str) -> (r: Result<i64, IntErrorKind>)
    ensures
        match r {
            Ok(v) => spec_parse_int(s@, i64::MIN as int, i64::MAX as int) == Ok::<
                int,
                IntErrorKind,
            >(v as int),
            Err(k) => spec_parse_int(s@, i64::MIN as int, i64::MAX as int) == Err::<
                int,
                IntErrorKind,
            >(k),
        },
{
    parse_int(s, i64::MIN, i64::MAX)
}

proof fn lemma_digit_char(d: nat)
    requires
        d < 10,
    ensures
        is_digit(digit_char(d)),
        digit_value(digit_char(d)) == d,
        digit_char(d) != '+' && digit_char(d) != '-',
{
    assert((((48 + d) as u32) as char) as u32 == 48 + d);
}

proof fn lemma_nat_digits_first(n: nat)
    ensures
        nat_digits(n).len() >= 1,
        is_digit(nat_digits(n)[0]),
        nat_digits(n)[0] != '+' && nat_digits(n)[0] != '-',
    decreases n,
{
    if n < 10 {
        lemma_digit_char(n);
    } else {
        lemma_nat_digits_first(n / 10);
    }
}

proof fn lemma_scan_append(a: Seq<char>, b: Seq<char>, acc: int, limit: int)
    ensures
        scan(a, acc, limit) matches Scan::Value(x) ==> scan(a + b, acc, limit) == scan(b, x, limit),
    decreases a.len(),
{
    if a.len() == 0 {
        assert(a + b =~= b);
    } else {
        assert((a + b)[0] == a[0]);
        assert((a + b).drop_first() =~= a.drop_first() + b);
        if is_digit(a[0]) && 10 * acc + digit_value(a[0]) <= limit {
            lemma_scan_append(a.drop_first(), b, 10 * acc + digit_value(a[0]), limit);
        }
    }
}

proof fn lemma_scan_digits(n: nat, limit: int)
    requires
        n <= limit,
    ensures
        scan(nat_digits(n), 0, limit) == Scan::Value(n as int),
    decreases n,
{
    if n < 10 {
        lemma_digit_char(n);
        let one = seq![digit_char(n)];
        assert(one.drop_first() =~= Seq::<char>::empty());
        assert(scan(one.drop_first(), n as int, limit) == Scan::Value(n as int));
        assert(nat_digits(n) == one);
    } else {
        lemma_scan_digits(n / 10, limit);
        lemma_digit_char(n % 10);
        lemma_scan_append(nat_digits(n / 10), seq![digit_char(n % 10)], 0, limit);
        assert(nat_digits(n) =~= nat_digits(n / 10) + seq![digit_char(n % 10)]);
        let one = seq![digit_char(n % 10)];
        assert(one.drop_first() =~= Seq::<char>::empty());
        assert(10 * (n / 10) + n % 10 == n);
        assert(scan(one.drop_first(), n as int, limit) == Scan::Value(n as int));
        assert(scan(one, (n / 10) as int, limit) == Scan::Value(n as int));
    }
}

/// Reading an integer back from the text written for it gives the same
/// integer, for every integer of the width that is read.
pub proof fn law_int_text_roundtrip(v: int, min: int, max: int)
    requires
        min < 0 < max,
        min <= v <= max,
    ensures
        spec_parse_int(int_text(v), min, max) == Ok::<int, IntErrorKind>(v),
{
    if v < 0 {
        let m = (-v) as nat;
        lemma_scan_digits(m, -min);
        lemma_nat_digits_first(m);
        let t = int_text(v);
        assert(t[0] == '-');
        assert(t.drop_first() =~= nat_digits(m));
    } else {
        lemma_scan_digits(v as nat, max);
        lemma_nat_digits_first(v as nat);
    }
}

/// The number that decimal digits stand for, most significant first: each
/// character counts as its code minus the code of `'0'`.
pub open spec fn decimal_value(t: Seq<char>) -> int
    decreases t.len(),
{
    if t.len() == 0 {
        0
    } else {
        10 * decimal_value(t.drop_last()) + ((t.last() as u32) - 48)
    }
}

proof fn lemma_nat_digits_plain(n: nat)
    ensures
        nat_digits(n).len() >= 1,
        forall|i: int|
            0 <= i < nat_digits(n).len() ==> 48 <= (#[trigger] nat_digits(n)[i] as u32) <= 57,
        (nat_digits(n)[0] as u32) == 48 ==> n == 0,
        decimal_value(nat_digits(n)) == n,
    decreases n,
{
    if n < 10 {
        lemma_digit_char(n);
        let t = nat_digits(n);
        assert(t.drop_last() =~= Seq::<char>::empty());
        assert(t.last() == digit_char(n));
        assert((digit_char(n) as u32) == 48 + n);
        assert(decimal_value(t) == 10 * decimal_value(t.drop_last()) + ((t.last() as u32) - 48));
    } else {
        let m = n / 10;
        lemma_nat_digits_plain(m);
        lemma_digit_char(n % 10);
        let t = nat_digits(n);
        assert(t == nat_digits(m).push(digit_char(n % 10)));
        assert(t.drop_last() =~= nat_digits(m));
        assert(t[0] == nat_digits(m)[0]);
        assert forall|i: int| 0 <= i < t.len() implies 48 <= (#[trigger] t[i] as u32) <= 57 by {
            if i < t.len() - 1 {
                assert(t[i] == nat_digits(m)[i]);
            }
        }
        assert(t.last() == digit_char(n % 10));
        assert((digit_char(n % 10) as u32) == 48 + n % 10);
        assert(decimal_value(t) == 10 * decimal_value(t.drop_last()) + ((t.last() as u32) - 48));
        assert(10 * m + n % 10 == n);
    }
}

/// The text written for an integer is its plain decimal notation, as
/// `i64::to_string` gives it: for a non-negative number, only digits, no
/// sign and no leading zero, standing for the number; for a negative
/// number, a minus sign followed by such digits of its magnitude.
pub proof fn law_int_text_decimal(v: int)
    ensures
        v >= 0 ==> {
            let t = int_text(v);
            &&& t.len() >= 1
            &&& forall|i: int| 0 <= i < t.len() ==> 48 <= (#[trigger] t[i] as u32) <= 57
            &&& t.len() > 1 ==> t[0] != '0'
            &&& decimal_value(t) == v
        },
        v < 0 ==> {
            let t = int_text(v);
            &&& t.len() >= 2
            &&& t[0] == '-'
            &&& forall|i: int| 1 <= i < t.len() ==> 48 <= (#[trigger] t[i] as u32) <= 57
            &&& t.len() > 2 ==> t[1] != '0'
            &&& decimal_value(t.drop_first()) == -v
        },
{
    if v >= 0 {
        lemma_nat_digits_plain(v as nat);
        assert(('0' as u32) == 48);
    } else {
        let m = (-v) as nat;
        lemma_nat_digits_plain(m);
        let t = int_text(v);
        assert(t.drop_first() =~= nat_digits(m));
        assert forall|i: int| 1 <= i < t.len() implies 48 <= (#[trigger] t[i] as u32) <= 57 by {
            assert(t[i] == nat_digits(m)[i - 1]);
        }
        assert(t[1] == nat_digits(m)[0]);
        assert(('0' as u32) == 48);
    }
}

/// The number that digits stand for when read from the front onto `acc`.
spec fn front_value(acc: int, t: Seq<char>) -> int
    decreases t.len(),
{
    if t.len() == 0 {
        acc
    } else {
        front_value(10 * acc + ((t[0] as u32) - 48), t.drop_first())
    }
}

proof fn lemma_front_value_push(acc: int, t: Seq<char>, c: char)
    ensures
        front_value(acc, t.push(c)) == 10 * front_value(acc, t) + ((c as u32) - 48),
    decreases t.len(),
{
    if t.len() == 0 {
        assert(t.push(c).drop_first() =~= Seq::<char>::empty());
        assert(t.push(c)[0] == c);
        let a = 10 * acc + ((c as u32) - 48);
        assert(front_value(a, Seq::<char>::empty()) == a);
    } else {
        assert(t.push(c).drop_first() =~= t.drop_first().push(c));
        assert(t.push(c)[0] == t[0]);
        lemma_front_value_push(10 * acc + ((t[0] as u32) - 48), t.drop_first(), c);
    }
}

proof fn lemma_front_value_decimal(t: Seq<char>)
    ensures
        front_value(0, t) == decimal_value(t),
    decreases t.len(),
{
    if t.len() > 0 {
        lemma_front_value_decimal(t.drop_last());
        lemma_front_value_push(0, t.drop_last(), t.last());
        assert(t.drop_last().push(t.last()) =~= t);
    }
}

proof fn lemma_scan_front(t: Seq<char>, acc: int, limit: int)
    requires
        acc >= 0,
        forall|i: int| 0 <= i < t.len() ==> 48 <= (#[trigger] t[i] as u32) <= 57,
    ensures
        front_value(acc, t) >= acc,
        front_value(acc, t) <= limit ==> scan(t, acc, limit) == Scan::Value(front_value(acc, t)),
        front_value(acc, t) > limit && acc <= limit ==> scan(t, acc, limit) == Scan::Overflow,
    decreases t.len(),
{
    if t.len() > 0 {
        let rest = t.drop_first();
        assert forall|i: int| 0 <= i < rest.len() implies 48 <= (#[trigger] rest[i] as u32) <= 57 by {
            assert(rest[i] == t[i + 1]);
        }
        let a = 10 * acc + ((t[0] as u32) - 48);
        assert(is_digit(t[0]));
        assert(digit_value(t[0]) == (t[0] as u32) - 48);
        lemma_scan_front(rest, a, limit);
    }
}

/// Reading an integer in `[min, max]` from a text, as `str::parse` does:
/// an empty text is `Empty`; a lone sign is `InvalidDigit`; after an
/// optional `+` or `-`, a first character that is not a digit is
/// `InvalidDigit`; a text of digits alone, or after `+`, gives the number
/// they stand for when it is at most `max` and `PosOverflow` otherwise;
/// digits after `-` give the negated number when it is at least `min` and
/// `NegOverflow` otherwise. Leading zeros are allowed.
pub proof fn law_parse_decimal(s: Seq<char>, min: int, max: int)
    requires
        min < 0 < max,
    ensures
        s.len() == 0 ==> spec_parse_int(s, min, max) == Err::<int, IntErrorKind>(
            IntErrorKind::Empty,
        ),
        s.len() == 1 && (s[0] == '+' || s[0] == '-') ==> spec_parse_int(s, min, max) == Err::<
            int,
            IntErrorKind,
        >(IntErrorKind::InvalidDigit),
        s.len() >= 1 && !(s[0] == '+' || s[0] == '-') && !(48 <= (s[0] as u32) <= 57)
            ==> spec_parse_int(s, min, max) == Err::<int, IntErrorKind>(
            IntErrorKind::InvalidDigit,
        ),
        s.len() >= 2 && (s[0] == '+' || s[0] == '-') && !(48 <= (s[1] as u32) <= 57)
            ==> spec_parse_int(s, min, max) == Err::<int, IntErrorKind>(
            IntErrorKind::InvalidDigit,
        ),
        s.len() >= 1 && (forall|i: int| 0 <= i < s.len() ==> 48 <= (#[trigger] s[i] as u32) <= 57)
            ==> spec_parse_int(s, min, max) == if decimal_value(s) <= max {
            Ok::<int, IntErrorKind>(decimal_value(s))
        } else {
            Err::<int, IntErrorKind>(IntErrorKind::PosOverflow)
        },
        s.len() >= 2 && s[0] == '+' && (forall|i: int|
            1 <= i < s.len() ==> 48 <= (#[trigger] s[i] as u32) <= 57) ==> spec_parse_int(
            s,
            min,
            max,
        ) == if decimal_value(s.drop_first()) <= max {
            Ok::<int, IntErrorKind>(decimal_value(s.drop_first()))
        } else {
            Err::<int, IntErrorKind>(IntErrorKind::PosOverflow)
        },
        s.len() >= 2 && s[0] == '-' && (forall|i: int|
            1 <= i < s.len() ==> 48 <= (#[trigger] s[i] as u32) <= 57) ==> spec_parse_int(
            s,
            min,
            max,
        ) == if -decimal_value(s.drop_first()) >= min {
            Ok::<int, IntErrorKind>(-decimal_value(s.drop_first()))
        } else {
            Err::<int, IntErrorKind>(IntErrorKind::NegOverflow)
        },
{
    if s.len() >= 1 {
        let signed = s[0] == '+' || s[0] == '-';
        let digits = if signed {
            s.drop_first()
        } else {
            s
        };
        let limit = if s[0] == '-' {
            -min
        } else {
            max
        };
        if digits.len() >= 1 && forall|i: int|
            0 <= i < digits.len() ==> 48 <= (#[trigger] digits[i] as u32) <= 57 {
            lemma_scan_front(digits, 0, limit);
            lemma_front_value_decimal(digits);
        }
        if signed && s.len() >= 2 {
            assert forall|i: int| 0 <= i < digits.len() && (forall|j: int|
                1 <= j < s.len() ==> 48 <= (#[trigger] s[j] as u32) <= 57) implies 48 <= (
            #[trigger] digits[i] as u32) <= 57 by {
                assert(digits[i] == s[i + 1]);
            }
            if forall|j: int| 1 <= j < s.len() ==> 48 <= (#[trigger] s[j] as u32) <= 57 {
                lemma_scan_front(digits, 0, limit);
                lemma_front_value_decimal(digits);
            }
            assert(digits[0] == s[1]);
        }
    }
}

} // verus!
