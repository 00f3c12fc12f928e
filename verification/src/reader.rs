//! Deserialisation of wire values from a buffer of received bytes.

use vstd::prelude::*;
use crate::codec::{
    be2_value, be4_value, be8_value, i16_of, i32_of, i64_of, string_extent, string_length_ok,
    units_of, utf16, valid_utf16, lemma_utf16_injective, lemma_string_bytes_decode, string_bytes,
    string_fits,
};

verus! {

/// Why a value or a packet could not be read.
#[derive(Debug, Clone, Copy, PartialEq, Eq)]
pub enum ReadError {
    /// The bytes received so far end before the value does.
    UnexpectedEof,
    /// A string's code units are not valid UTF-16.
    InvalidUtf16,
    /// A packet other than the one the protocol expects at this point.
    UnexpectedPacket { expected: u8, found: u8 },
    /// A packet id that no handler is registered for.
    UnhandledPacket(u8),
}

/// What reading a string from the start of `s` gives: its characters,
/// or why it cannot be read.
pub open spec fn string_read(s: Seq<u8>) -> Result<Seq<char>, ReadError> {
    if s.len() < 2 || s.len() < string_extent(s) {
        Err(ReadError::UnexpectedEof)
    } else if !valid_utf16(units_of(s.subrange(2, string_extent(s)))) {
        Err(ReadError::InvalidUtf16)
    } else {
        Ok(choose|t: Seq<char>| utf16(t) == units_of(s.subrange(2, string_extent(s))))
    }
}

/// How many bytes a failed string read has consumed: the whole string
/// when its units are not valid UTF-16, none when the bytes end early.
pub open spec fn string_error_extent(e: ReadError, s: Seq<u8>) -> int {
    if e == ReadError::InvalidUtf16 {
        string_extent(s)
    } else {
        0
    }
}

/// Reads wire values, in order, from a buffer of received bytes. A read that
/// fails because the bytes end early consumes nothing, so that it can be
/// tried again once more bytes have arrived.
#[derive(Clone, Copy)]
pub struct PacketReader<'a> {
    data: &'a [u8],
    pos: usize,
}

impl<'a> View for PacketReader<'a> {
    type V = Seq<u8>;

    /// The bytes not read yet.
    closed spec fn view(&self) -> Seq<u8> {
        self.data@.subrange(self.pos as int, self.data@.len() as int)
    }
}

impl<'a> PacketReader<'a> {
    /// The number of bytes read so far.
    pub closed spec fn consumed(&self) -> nat {
        self.pos as nat
    }

    #[verifier::type_invariant]
    closed spec fn wf(&self) -> bool {
        self.pos <= self.data@.len()
    }

    /// This reader is `before` with its next `n` bytes read; with none
    /// read, it is `before` itself.
    pub open spec fn left_after(self, before: Self, n: int) -> bool {
        if n == 0 {
            self == before
        } else {
            self.advanced_from(before, n)
        }
    }

    /// This reader is `before` with its next `n` bytes read.
    pub open spec fn advanced_from(self, before: Self, n: int) -> bool {
        &&& self@ == before@.skip(n)
        &&& self.consumed() == before.consumed() + n
    }

    /// A reader at the start of `data`.
    pub fn new(data: &'a [u8]) -> (r: PacketReader<'a>)
        ensures
            r@ == data@,
            r.consumed() == 0,
    {
        let r = PacketReader { data, pos: 0 };
        assert(r@ =~= data@);
        r
    }

    /// The number of bytes read so far.
    pub fn position(&self) -> (n: usize)
        ensures
            n == self.consumed(),
    {
        self.pos
    }

    /// The number of bytes not read yet.
    pub fn remaining(&self) -> (n: usize)
        ensures
            n == self@.len(),
    {
        proof { use_type_invariant(self); }
        self.data.len() - self.pos
    }

    /// Whether a string length prefix `offset` bytes ahead, if all of it
    /// has been received, is not negative.
    pub fn string_length_ok_at(&self, offset: usize) -> (b: bool)
        ensures
            b == string_length_ok(self@, offset as int),
    {
        proof { use_type_invariant(self); }
        let rest = self.data.len() - self.pos;
        if rest < 2 || offset > rest - 2 {
            return true;
        }
        let i = self.pos + offset;
        let hi = self.data[i];
        assert(self@.subrange(offset as int, offset + 2) =~= seq![
            self.data@[i as int],
            self.data@[i + 1],
        ]);
        hi < 0x80
    }

    /// Reads one byte.
    pub fn read_u8(&mut self) -> (r: Result<u8, ReadError>)
        ensures
            r is Ok <==> old(self)@.len() >= 1,
            r matches Ok(b) ==> b == old(self)@[0] && final(self).advanced_from(*old(self), 1),
            r is Err ==> r == Err::<u8, ReadError>(ReadError::UnexpectedEof) && *final(self)
                == *old(self),
    {
        proof { use_type_invariant(&*self); }
        if self.pos >= self.data.len() {
            return Err(ReadError::UnexpectedEof);
        }
        let b = self.data[self.pos];
        self.pos = self.pos + 1;
        assert(final(self)@ =~= old(self)@.skip(1));
        Ok(b)
    }

    /// Reads the next `n` bytes unchanged.
    fn read_n(&mut self, n: usize) -> (r: Option<&'a [u8]>)
        ensures
            r is Some <==> old(self)@.len() >= n,
            r matches Some(b) ==> b@ == old(self)@.take(n as int) && final(self).advanced_from(
                *old(self),
                n as int,
            ),
            r is None ==> *final(self) == *old(self),
    {
        proof { use_type_invariant(&*self); }
        if n > self.data.len() - self.pos {
            return None;
        }
        let b = &self.data[self.pos..self.pos + n];
        self.pos = self.pos + n;
        assert(b@ =~= old(self)@.take(n as int));
        assert(final(self)@ =~= old(self)@.skip(n as int));
        Some(b)
    }

    /// Reads the unsigned value of two big-endian bytes.
    fn read_u16(&mut self) -> (r: Result<u16, ReadError>)
        ensures
            r is Ok <==> old(self)@.len() >= 2,
            r matches Ok(v) ==> v == be2_value(old(self)@.take(2)) && final(self).advanced_from(
                *old(self),
                2,
            ),
            r is Err ==> r == Err::<u16, ReadError>(ReadError::UnexpectedEof) && *final(self)
                == *old(self),
    {
        match self.read_n(2) {
            None => Err(ReadError::UnexpectedEof),
            Some(b) => Ok((b[0] as u16) * 0x100 + b[1] as u16),
        }
    }

    /// Reads the unsigned value of four big-endian bytes.
    fn read_u32(&mut self) -> (r: Result<u32, ReadError>)
        ensures
            r is Ok <==> old(self)@.len() >= 4,
            r matches Ok(v) ==> v == be4_value(old(self)@.take(4)) && final(self).advanced_from(
                *old(self),
                4,
            ),
            r is Err ==> r == Err::<u32, ReadError>(ReadError::UnexpectedEof) && *final(self)
                == *old(self),
    {
        match self.read_n(4) {
            None => Err(ReadError::UnexpectedEof),
            Some(b) => Ok(
                (b[0] as u32) * 0x100_0000 + (b[1] as u32) * 0x1_0000 + (b[2] as u32) * 0x100
                    + b[3] as u32,
            ),
        }
    }

    /// Reads the unsigned value of eight big-endian bytes.
    fn read_u64(&mut self) -> (r: Result<u64, ReadError>)
        ensures
            r is Ok <==> old(self)@.len() >= 8,
            r matches Ok(v) ==> v == be8_value(old(self)@.take(8)) && final(self).advanced_from(
                *old(self),
                8,
            ),
            r is Err ==> r == Err::<u64, ReadError>(ReadError::UnexpectedEof) && *final(self)
                == *old(self),
    {
        match self.read_n(8) {
            None => Err(ReadError::UnexpectedEof),
            Some(b) => {
                let hi: u64 = (b[0] as u64) * 0x100_0000 + (b[1] as u64) * 0x1_0000 + (b[2] as u64)
                    * 0x100 + b[3] as u64;
                let lo: u64 = (b[4] as u64) * 0x100_0000 + (b[5] as u64) * 0x1_0000 + (b[6] as u64)
                    * 0x100 + b[7] as u64;
                assert(b@.subrange(0, 4) =~= seq![b@[0], b@[1], b@[2], b@[3]]);
                assert(b@.subrange(4, 8) =~= seq![b@[4], b@[5], b@[6], b@[7]]);
                Ok(hi * 0x1_0000_0000 + lo)
            },
        }
    }

    /// Reads an `i16`, two's complement, big-endian.
    pub fn read_i16(&mut self) -> (r: Result<i16, ReadError>)
        ensures
            r is Ok <==> old(self)@.len() >= 2,
            r matches Ok(v) ==> v == i16_of(old(self)@.take(2)) && final(self).advanced_from(
                *old(self),
                2,
            ),
            r is Err ==> r == Err::<i16, ReadError>(ReadError::UnexpectedEof) && *final(self)
                == *old(self),
    {
        let u = self.read_u16()?;
        Ok(if u >= 0x8000 { (u as i32 - 0x1_0000) as i16 } else { u as i16 })
    }

    /// Reads an `i32`, two's complement, big-endian.
    pub fn read_i32(&mut self) -> (r: Result<i32, ReadError>)
        ensures
            r is Ok <==> old(self)@.len() >= 4,
            r matches Ok(v) ==> v == i32_of(old(self)@.take(4)) && final(self).advanced_from(
                *old(self),
                4,
            ),
            r is Err ==> r == Err::<i32, ReadError>(ReadError::UnexpectedEof) && *final(self)
                == *old(self),
    {
        let u = self.read_u32()?;
        Ok(if u >= 0x8000_0000 { (u as i64 - 0x1_0000_0000) as i32 } else { u as i32 })
    }

    /// Reads an `i64`, two's complement, big-endian.
    pub fn read_i64(&mut self) -> (r: Result<i64, ReadError>)
        ensures
            r is Ok <==> old(self)@.len() >= 8,
            r matches Ok(v) ==> v == i64_of(old(self)@.take(8)) && final(self).advanced_from(
                *old(self),
                8,
            ),
            r is Err ==> r == Err::<i64, ReadError>(ReadError::UnexpectedEof) && *final(self)
                == *old(self),
    {
        let u = self.read_u64()?;
        Ok(
            if u >= 0x8000_0000_0000_0000 {
                (u as i128 - 0x1_0000_0000_0000_0000) as i64
            } else {
                u as i64
            },
        )
    }

    /// Reads a 32-bit floating-point value as its IEEE-754 bit pattern (the
    /// four big-endian bytes).
    pub fn read_f32(&mut self) -> (r: Result<u32, ReadError>)
        ensures
            r is Ok <==> old(self)@.len() >= 4,
            r matches Ok(v) ==> v == be4_value(old(self)@.take(4)) && final(self).advanced_from(
                *old(self),
                4,
            ),
            r is Err ==> r == Err::<u32, ReadError>(ReadError::UnexpectedEof) && *final(self)
                == *old(self),
    {
        self.read_u32()
    }

    /// Reads a 64-bit floating-point value as its IEEE-754 bit pattern (the
    /// eight big-endian bytes).
    pub fn read_f64(&mut self) -> (r: Result<u64, ReadError>)
        ensures
            r is Ok <==> old(self)@.len() >= 8,
            r matches Ok(v) ==> v == be8_value(old(self)@.take(8)) && final(self).advanced_from(
                *old(self),
                8,
            ),
            r is Err ==> r == Err::<u64, ReadError>(ReadError::UnexpectedEof) && *final(self)
                == *old(self),
    {
        self.read_u64()
    }

    /// Reads a `bool`: any non-zero byte is true.
    pub fn read_bool(&mut self) -> (r: Result<bool, ReadError>)
        ensures
            r is Ok <==> old(self)@.len() >= 1,
            r matches Ok(v) ==> v == (old(self)@[0] != 0) && final(self).advanced_from(
                *old(self),
                1,
            ),
            r is Err ==> r == Err::<bool, ReadError>(ReadError::UnexpectedEof) && *final(self)
                == *old(self),
    {
        Ok(self.read_u8()? != 0)
    }

    /// Reads a string: an `i16` count of UTF-16 code units, then the units,
    /// big-endian. Fails, consuming nothing, when the bytes end early; fails,
    /// having consumed the whole string, when the units are not valid
    /// UTF-16. A negative count is not accepted.
    pub fn read_string(&mut self) -> (r: Result<String, ReadError>)
        requires
            string_length_ok(old(self)@, 0),
        ensures
            match string_read(old(self)@) {
                Ok(t) => r is Ok && r->Ok_0@ == t && final(self).advanced_from(
                    *old(self),
                    string_extent(old(self)@),
                ),
                Err(e) => r == Err::<String, ReadError>(e) && final(self).left_after(
                    *old(self),
                    string_error_extent(e, old(self)@),
                ),
            },
    {
        proof { use_type_invariant(&*self); }
        let saved = PacketReader { data: self.data, pos: self.pos };
        let ghost before = self@;
        let len = self.read_i16()?;
        assert(before.take(2) =~= before.subrange(0, 2));
        let n: usize = len as usize;
        let ghost mid = self@;
        match self.read_n(2 * n) {
            None => {
                *self = saved;
                Err(ReadError::UnexpectedEof)
            },
            Some(b) => {
                let units = units_from_bytes(b, n);
                assert(b@ =~= before.subrange(2, string_extent(before)));
                match string_from_utf16(units.as_slice()) {
                    Some(text) => {
                        assert(self@ =~= before.skip(string_extent(before)));
                        proof {
                            let t = choose|t: Seq<char>| utf16(t) == units@;
                            lemma_utf16_injective(t, text@);
                        }
                        Ok(text)
                    },
                    None => {
                        assert(self@ =~= before.skip(string_extent(before)));
                        Err(ReadError::InvalidUtf16)
                    },
                }
            },
        }
    }
}

/// The `n` code units of `2 * n` big-endian bytes.
fn units_from_bytes(b: &[u8], n: usize) -> (units: Vec<u16>)
    requires
        b@.len() == 2 * n,
        n <= 0x7FFF,
    ensures
        units@ == units_of(b@),
{
    let mut units: Vec<u16> = Vec::new();
    let mut i: usize = 0;
    while i < n
        invariant
            i <= n,
            b@.len() == 2 * n,
            n <= 0x7FFF,
            units@ == units_of(b@.subrange(0, 2 * i as int)),
        decreases n - i,
    {
        let ghost prefix = b@.subrange(0, 2 * i + 2);
        assert(prefix.subrange(0, prefix.len() - 2) =~= b@.subrange(0, 2 * i as int));
        assert(prefix.subrange(prefix.len() - 2, prefix.len() as int) =~= seq![
            b@[2 * i as int],
            b@[2 * i + 1],
        ]);
        units.push((b[2 * i] as u16) * 0x100 + b[2 * i + 1] as u16);
        i = i + 1;
    }
    assert(b@.subrange(0, 2 * n as int) =~= b@);
    units
}

/// The string whose UTF-16 code units are `units`, if there is one.
/// This calls `String::from_utf16`, which std documents as decoding UTF-16
/// and failing exactly when the input holds invalid data (an unpaired
/// surrogate); the contract states that a result re-encodes to `units`,
/// and that a failure means no string encodes to them.
#[verifier::external_body]
fn string_from_utf16(units: &[u16]) -> (r: Option<String>)
    ensures
        r matches Some(s) ==> utf16(s@) == units@,
        r is None ==> !valid_utf16(units@),
{
    String::from_utf16(units).ok()
}

/// Reading back a written string gives the string: from bytes that start
/// with the wire form of a string that fits, `read_string` returns that
/// string and consumes exactly its wire form.
pub proof fn law_read_written_string(s: Seq<char>, rest: Seq<u8>)
    requires
        string_fits(s),
    ensures
        string_length_ok(string_bytes(s) + rest, 0),
        string_read(string_bytes(s) + rest) == Ok::<Seq<char>, ReadError>(s),
        string_extent(string_bytes(s) + rest) == string_bytes(s).len(),
{
    lemma_string_bytes_decode(s, rest);
    let b = string_bytes(s) + rest;
    let u = units_of(b.subrange(2, string_extent(b)));
    let t = choose|t: Seq<char>| utf16(t) == u;
    assert(utf16(t) == u);
}

} // verus!
