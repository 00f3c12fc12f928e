//! The byte-level model of the wire format: big-endian integers and
//! length-prefixed UTF-16 strings, with the laws that tie encoding to
//! decoding.

use vstd::prelude::*;

verus! {

/// 2^16, 2^32 and 2^64 as mathematical integers.
pub open spec fn pow16() -> int { 0x1_0000 }

pub open spec fn pow32() -> int { 0x1_0000_0000 }

pub open spec fn pow64() -> int { 0x1_0000_0000_0000_0000 }

/// The two's-complement bit pattern of a signed value of `bits` width, as a
/// non-negative integer.
pub open spec fn twos(v: int, modulus: int) -> int {
    if v < 0 { v + modulus } else { v }
}

/// The signed value of a non-negative bit pattern of the given modulus.
pub open spec fn signed(u: int, modulus: int) -> int {
    if u >= modulus / 2 { u - modulus } else { u }
}

/// Big-endian bytes of an unsigned 16-bit pattern.
pub open spec fn be2(u: int) -> Seq<u8> {
    seq![((u / 0x100) % 0x100) as u8, (u % 0x100) as u8]
}

/// Big-endian bytes of an unsigned 32-bit pattern.
pub open spec fn be4(u: int) -> Seq<u8> {
    seq![
        ((u / 0x100_0000) % 0x100) as u8,
        ((u / 0x1_0000) % 0x100) as u8,
        ((u / 0x100) % 0x100) as u8,
        (u % 0x100) as u8,
    ]
}

/// Big-endian bytes of an unsigned 64-bit pattern.
pub open spec fn be8(u: int) -> Seq<u8> {
    be4(u / pow32()) + be4(u % pow32())
}

/// The unsigned value of two big-endian bytes.
pub open spec fn be2_value(s: Seq<u8>) -> int {
    s[0] * 0x100 + s[1]
}

/// The unsigned value of four big-endian bytes.
pub open spec fn be4_value(s: Seq<u8>) -> int {
    s[0] * 0x100_0000 + s[1] * 0x1_0000 + s[2] * 0x100 + s[3]
}

/// The unsigned value of eight big-endian bytes.
pub open spec fn be8_value(s: Seq<u8>) -> int {
    be4_value(s.subrange(0, 4)) * pow32() + be4_value(s.subrange(4, 8))
}

/// Wire form of a `u8`.
pub open spec fn u8_bytes(v: u8) -> Seq<u8> {
    seq![v]
}

/// Wire form of a `bool`: one byte, 1 for true and 0 for false.
pub open spec fn bool_bytes(v: bool) -> Seq<u8> {
    seq![if v { 1u8 } else { 0u8 }]
}

/// Wire form of an `i16`: two's complement, big-endian.
pub open spec fn i16_bytes(v: i16) -> Seq<u8> {
    be2(twos(v as int, pow16()))
}

/// Wire form of an `i32`: two's complement, big-endian.
pub open spec fn i32_bytes(v: i32) -> Seq<u8> {
    be4(twos(v as int, pow32()))
}

/// Wire form of an `i64`: two's complement, big-endian.
pub open spec fn i64_bytes(v: i64) -> Seq<u8> {
    be8(twos(v as int, pow64()))
}

/// The `i16` that two big-endian bytes encode.
pub open spec fn i16_of(s: Seq<u8>) -> int {
    signed(be2_value(s), pow16())
}

/// The `i32` that four big-endian bytes encode.
pub open spec fn i32_of(s: Seq<u8>) -> int {
    signed(be4_value(s), pow32())
}

/// The `i64` that eight big-endian bytes encode.
pub open spec fn i64_of(s: Seq<u8>) -> int {
    signed(be8_value(s), pow64())
}

/// The UTF-16 code units of one character.
pub open spec fn utf16_char(c: char) -> Seq<u16> {
    let n = (c as u32) as int;
    if n < 0x1_0000 {
        seq![n as u16]
    } else {
        let m = n - 0x1_0000;
        seq![(0xD800 + m / 0x400) as u16, (0xDC00 + m % 0x400) as u16]
    }
}

/// The UTF-16 code units of a string.
pub open spec fn utf16(s: Seq<char>) -> Seq<u16>
    decreases s.len(),
{
    if s.len() == 0 {
        Seq::empty()
    } else {
        utf16(s.drop_last()) + utf16_char(s.last())
    }
}

/// Code units laid out big-endian, two bytes each.
pub open spec fn units_bytes(u: Seq<u16>) -> Seq<u8>
    decreases u.len(),
{
    if u.len() == 0 {
        Seq::empty()
    } else {
        units_bytes(u.drop_last()) + be2(u.last() as int)
    }
}

/// The largest number of UTF-16 code units a string on the wire may have.
pub open spec fn max_string_units() -> int { 0x7FFF }

/// Whether a string fits the wire's signed 16-bit length prefix.
pub open spec fn string_fits(s: Seq<char>) -> bool {
    utf16(s).len() <= max_string_units()
}

/// Wire form of a string that fits: its UTF-16 length as an `i16`, then
/// its code units, big-endian.
pub open spec fn string_bytes(s: Seq<char>) -> Seq<u8> {
    be2(utf16(s).len() as int) + units_bytes(utf16(s))
}

/// Code units read from big-endian byte pairs (a trailing odd byte is
/// ignored).
pub open spec fn units_of(b: Seq<u8>) -> Seq<u16>
    decreases b.len(),
{
    if b.len() < 2 {
        Seq::empty()
    } else {
        units_of(b.subrange(0, b.len() - 2)).push(
            be2_value(b.subrange(b.len() - 2, b.len() as int)) as u16,
        )
    }
}

/// Whether a string length prefix at offset `at` of `s`, if all of it is
/// there, is not negative.
pub open spec fn string_length_ok(s: Seq<u8>, at: int) -> bool {
    s.len() >= at + 2 ==> i16_of(s.subrange(at, at + 2)) >= 0
}

/// The number of bytes a string occupies on the wire, given the bytes that
/// start with its length prefix.
pub open spec fn string_extent(s: Seq<u8>) -> int {
    2 + 2 * i16_of(s.subrange(0, 2))
}

/// Whether some string has exactly these UTF-16 code units.
pub open spec fn valid_utf16(u: Seq<u16>) -> bool {
    exists|t: Seq<char>| utf16(t) == u
}

/// Reading back a written integer gives the integer: for every `i16`,
/// `i32` and `i64`, decoding its big-endian two's-complement bytes yields
/// it again, and the bit patterns of floating-point values survive the
/// same way.
pub proof fn law_integer_roundtrip(a: i16, b: i32, c: i64, f: u32, d: u64)
    ensures
        i16_bytes(a).len() == 2 && i16_of(i16_bytes(a)) == a,
        i32_bytes(b).len() == 4 && i32_of(i32_bytes(b)) == b,
        i64_bytes(c).len() == 8 && i64_of(i64_bytes(c)) == c,
        be4(f as int).len() == 4 && be4_value(be4(f as int)) == f,
        be8(d as int).len() == 8 && be8_value(be8(d as int)) == d,
{
    lemma_be2_roundtrip(twos(a as int, pow16()));
    lemma_be4_roundtrip(twos(b as int, pow32()));
    lemma_be8_roundtrip(twos(c as int, pow64()));
    lemma_be4_roundtrip(f as int);
    lemma_be8_roundtrip(d as int);
}

pub proof fn lemma_be2_roundtrip(u: int)
    requires
        0 <= u < pow16(),
    ensures
        be2(u).len() == 2,
        be2_value(be2(u)) == u,
{
}

pub proof fn lemma_be4_roundtrip(u: int)
    requires
        0 <= u < pow32(),
    ensures
        be4(u).len() == 4,
        be4_value(be4(u)) == u,
{
}

pub proof fn lemma_be8_roundtrip(u: int)
    requires
        0 <= u < pow64(),
    ensures
        be8(u).len() == 8,
        be8_value(be8(u)) == u,
{
    lemma_be4_roundtrip(u / pow32());
    lemma_be4_roundtrip(u % pow32());
    let s = be8(u);
    assert(s.subrange(0, 4) =~= be4(u / pow32()));
    assert(s.subrange(4, 8) =~= be4(u % pow32()));
}

pub proof fn lemma_units_bytes_len(u: Seq<u16>)
    ensures
        units_bytes(u).len() == 2 * u.len(),
    decreases u.len(),
{
    if u.len() > 0 {
        lemma_units_bytes_len(u.drop_last());
    }
}

/// Decoding the bytes of code units gives the code units back.
pub proof fn lemma_units_roundtrip(u: Seq<u16>)
    ensures
        units_of(units_bytes(u)) == u,
    decreases u.len(),
{
    if u.len() > 0 {
        let b = units_bytes(u);
        lemma_units_bytes_len(u.drop_last());
        lemma_units_roundtrip(u.drop_last());
        lemma_be2_roundtrip(u.last() as int);
        assert(b.subrange(0, b.len() - 2) =~= units_bytes(u.drop_last()));
        assert(b.subrange(b.len() - 2, b.len() as int) =~= be2(u.last() as int));
        assert(units_of(b) =~= u);
    }
}

pub proof fn lemma_utf16_char_shape(c: char)
    ensures
        utf16_char(c).len() == 1 ==> !(0xDC00 <= utf16_char(c)[0] <= 0xDFFF),
        utf16_char(c).len() == 2 ==> 0xDC00 <= utf16_char(c)[1] <= 0xDFFF,
        1 <= utf16_char(c).len() <= 2,
{
    vstd::utf8::char_is_scalar(c);
}

/// One character's code units determine the character.
pub proof fn lemma_utf16_char_injective(c: char, d: char)
    requires
        utf16_char(c) == utf16_char(d),
    ensures
        c == d,
{
    vstd::utf8::char_is_scalar(c);
    vstd::utf8::char_is_scalar(d);
    vstd::utf8::char_u32_cast(c, c as u32);
    vstd::utf8::char_u32_cast(d, d as u32);
    let n = (c as u32) as int;
    let k = (d as u32) as int;
    if n < 0x1_0000 {
        assert(utf16_char(c).len() == 1);
        assert(k < 0x1_0000);
        assert(utf16_char(c)[0] == utf16_char(d)[0]);
        assert(utf16_char(c)[0] == n as u16);
        assert(utf16_char(d)[0] == k as u16);
        assert((n as u16) as int == n);
        assert((k as u16) as int == k);
        assert(n == k);
    } else {
        assert(utf16_char(c).len() == 2);
        assert(k >= 0x1_0000);
        assert(utf16_char(c)[0] == utf16_char(d)[0]);
        assert(utf16_char(c)[1] == utf16_char(d)[1]);
        assert((n - 0x1_0000) / 0x400 == (k - 0x1_0000) / 0x400);
        assert((n - 0x1_0000) % 0x400 == (k - 0x1_0000) % 0x400);
        let m = n - 0x1_0000;
        let j = k - 0x1_0000;
        assert(m == 0x400 * (m / 0x400) + m % 0x400);
        assert(j == 0x400 * (j / 0x400) + j % 0x400);
        assert(n == k);
    }
    assert(c as u32 == d as u32);
}

pub proof fn lemma_utf16_len(s: Seq<char>)
    ensures
        utf16(s).len() >= s.len(),
    decreases s.len(),
{
    if s.len() > 0 {
        lemma_utf16_len(s.drop_last());
        lemma_utf16_char_shape(s.last());
    }
}

/// Distinct strings have distinct UTF-16 code units.
pub proof fn lemma_utf16_injective(s: Seq<char>, t: Seq<char>)
    requires
        utf16(s) == utf16(t),
    ensures
        s == t,
    decreases s.len(),
{
    lemma_utf16_len(s);
    lemma_utf16_len(t);
    if s.len() == 0 || t.len() == 0 {
        assert(s =~= t);
    } else {
        let a = utf16_char(s.last());
        let b = utf16_char(t.last());
        let u = utf16(s);
        lemma_utf16_char_shape(s.last());
        lemma_utf16_char_shape(t.last());
        assert(u.last() == a.last());
        assert(u.last() == b.last());
        assert(a.len() == b.len());
        let k = u.len() - a.len();
        assert(u.subrange(0, k) =~= utf16(s.drop_last()));
        assert(utf16(t).subrange(0, k) =~= utf16(t.drop_last()));
        assert(u.subrange(k, u.len() as int) =~= a);
        assert(utf16(t).subrange(k, u.len() as int) =~= b);
        lemma_utf16_injective(s.drop_last(), t.drop_last());
        lemma_utf16_char_injective(s.last(), t.last());
        assert(s =~= t.drop_last().push(t.last()));
    }
}

/// On bytes that start with the wire form of a string that fits, the
/// length prefix is not negative, the whole string is there, its code
/// units are valid UTF-16, and the only string they decode to is the one
/// written.
pub proof fn lemma_string_bytes_decode(s: Seq<char>, rest: Seq<u8>)
    requires
        string_fits(s),
    ensures
        ({
            let b = string_bytes(s) + rest;
            &&& string_length_ok(b, 0)
            &&& string_extent(b) == string_bytes(s).len()
            &&& b.len() >= string_extent(b)
            &&& units_of(b.subrange(2, string_extent(b))) == utf16(s)
            &&& valid_utf16(units_of(b.subrange(2, string_extent(b))))
            &&& forall|t: Seq<char>|
                utf16(t) == units_of(b.subrange(2, string_extent(b))) ==> t == s
        }),
{
    let b = string_bytes(s) + rest;
    let n = utf16(s).len() as int;
    lemma_be2_roundtrip(n);
    lemma_units_bytes_len(utf16(s));
    lemma_units_roundtrip(utf16(s));
    assert(b.subrange(0, 2) =~= be2(n));
    assert(b.subrange(2, 2 + 2 * n) =~= units_bytes(utf16(s)));
    assert forall|t: Seq<char>| utf16(t) == units_of(b.subrange(2, string_extent(b))) implies t
        == s by {
        lemma_utf16_injective(t, s);
    }
}

/// UTF-16 as the standard defines it: a character below U+10000 is the one
/// code unit equal to its scalar value; any other is a high surrogate
/// (D800-DBFF) then a low surrogate (DC00-DFFF) whose ten-bit payloads,
/// high first, plus 0x10000 give back the scalar value.
pub proof fn law_utf16_char_standard(c: char)
    ensures
        (c as u32) < 0x1_0000 ==> utf16_char(c).len() == 1 && utf16_char(c)[0] as int == (
        c as u32) as int,
        (c as u32) >= 0x1_0000 ==> {
            let u = utf16_char(c);
            &&& u.len() == 2
            &&& 0xD800 <= u[0] <= 0xDBFF
            &&& 0xDC00 <= u[1] <= 0xDFFF
            &&& 0x1_0000 + (u[0] - 0xD800) * 0x400 + (u[1] - 0xDC00) == (c as u32) as int
        },
{
    vstd::utf8::char_is_scalar(c);
    let n = (c as u32) as int;
    if n >= 0x1_0000 {
        let m = n - 0x1_0000;
        assert(m == 0x400 * (m / 0x400) + m % 0x400);
        assert(utf16_char(c)[0] as int == 0xD800 + m / 0x400);
        assert(utf16_char(c)[1] as int == 0xDC00 + m % 0x400);
    }
}

/// A string's code units are its characters' code units in order: the
/// units of a concatenation are the concatenation of the units.
pub proof fn law_utf16_concat(s: Seq<char>, t: Seq<char>)
    ensures
        utf16(s + t) == utf16(s) + utf16(t),
    decreases t.len(),
{
    if t.len() == 0 {
        assert(s + t =~= s);
        assert(utf16(t) =~= Seq::<u16>::empty());
        assert(utf16(s) + utf16(t) =~= utf16(s));
    } else {
        law_utf16_concat(s, t.drop_last());
        assert((s + t).drop_last() =~= s + t.drop_last());
        assert((s + t).last() == t.last());
        assert(utf16(s + t) =~= utf16(s) + utf16(t));
    }
}

/// A string whose characters all lie below U+10000 has exactly one code
/// unit per character, each equal to that character's scalar value.
pub proof fn law_utf16_bmp(s: Seq<char>)
    requires
        forall|i: int| 0 <= i < s.len() ==> (#[trigger] s[i] as u32) < 0x1_0000,
    ensures
        utf16(s).len() == s.len(),
        forall|i: int| 0 <= i < s.len() ==> utf16(s)[i] as int == (#[trigger] s[i] as u32) as int,
    decreases s.len(),
{
    if s.len() > 0 {
        let p = s.drop_last();
        assert forall|i: int| 0 <= i < p.len() implies (#[trigger] p[i] as u32) < 0x1_0000 by {
            assert(p[i] == s[i]);
        }
        law_utf16_bmp(p);
        law_utf16_char_standard(s.last());
        assert(s[s.len() - 1] == s.last());
        assert forall|i: int| 0 <= i < s.len() implies utf16(s)[i] as int == (
        #[trigger] s[i] as u32) as int by {
            if i < s.len() - 1 {
                assert(p[i] == s[i]);
            }
        }
    }
}

} // verus!
