//! Serialisation of wire values into an outgoing byte buffer.

use vstd::prelude::*;
use crate::codec::{
    be2, be4, be8, bool_bytes, i16_bytes, i32_bytes, i64_bytes, pow16, pow32, pow64, string_bytes,
    string_fits, twos, u8_bytes, units_bytes, utf16, utf16_char,
};

verus! {

/// Writes wire values, in order, into a buffer of outgoing bytes.
pub struct PacketWriter {
    buf: Vec<u8>,
}

impl View for PacketWriter {
    type V = Seq<u8>;

    /// The bytes written so far and not yet flushed.
    closed spec fn view(&self) -> Seq<u8> {
        self.buf@
    }
}

impl PacketWriter {
    /// A writer with nothing written yet.
    pub fn new() -> (w: PacketWriter)
        ensures
            w@ == Seq::<u8>::empty(),
    {
        PacketWriter { buf: Vec::new() }
    }

    /// Hands over the bytes written so far, for sending, and empties the
    /// buffer.
    pub fn flush(&mut self) -> (out: Vec<u8>)
        ensures
            out@ == old(self)@,
            final(self)@ == Seq::<u8>::empty(),
    {
        let mut out: Vec<u8> = Vec::new();
        std::mem::swap(&mut out, &mut self.buf);
        out
    }

    /// Appends `data` unchanged.
    pub fn write_bytes(&mut self, data: &[u8])
        ensures
            final(self)@ == old(self)@ + data@,
    {
        self.buf.extend_from_slice(data);
    }

    /// Appends one byte.
    pub fn write_u8(&mut self, v: u8)
        ensures
            final(self)@ == old(self)@ + u8_bytes(v),
    {
        self.buf.push(v);
    }

    /// Appends a `bool` as one byte: 1 for true, 0 for false.
    pub fn write_bool(&mut self, v: bool)
        ensures
            final(self)@ == old(self)@ + bool_bytes(v),
    {
        self.write_u8(if v { 1 } else { 0 });
    }

    /// Appends the two big-endian bytes of an unsigned 16-bit pattern.
    fn write_u16(&mut self, u: u16)
        ensures
            final(self)@ == old(self)@ + be2(u as int),
    {
        self.buf.push((u / 0x100) as u8);
        self.buf.push((u % 0x100) as u8);
        assert(final(self)@ =~= old(self)@ + be2(u as int));
    }

    /// Appends the four big-endian bytes of an unsigned 32-bit pattern.
    fn write_u32(&mut self, u: u32)
        ensures
            final(self)@ == old(self)@ + be4(u as int),
    {
        self.buf.push((u / 0x100_0000) as u8);
        self.buf.push(((u / 0x1_0000) % 0x100) as u8);
        self.buf.push(((u / 0x100) % 0x100) as u8);
        self.buf.push((u % 0x100) as u8);
        assert(final(self)@ =~= old(self)@ + be4(u as int));
    }

    /// Appends an `i16`, two's complement, big-endian.
    pub fn write_i16(&mut self, v: i16)
        ensures
            final(self)@ == old(self)@ + i16_bytes(v),
    {
        let u: u16 = if v < 0 { (v as i32 + 0x1_0000) as u16 } else { v as u16 };
        assert(u as int == twos(v as int, pow16()));
        self.write_u16(u);
    }

    /// Appends an `i32`, two's complement, big-endian.
    pub fn write_i32(&mut self, v: i32)
        ensures
            final(self)@ == old(self)@ + i32_bytes(v),
    {
        let u: u32 = if v < 0 { (v as i64 + 0x1_0000_0000) as u32 } else { v as u32 };
        assert(u as int == twos(v as int, pow32()));
        self.write_u32(u);
    }

    /// Appends an `i64`, two's complement, big-endian.
    pub fn write_i64(&mut self, v: i64)
        ensures
            final(self)@ == old(self)@ + i64_bytes(v),
    {
        let u: u64 = if v < 0 {
            (v as i128 + 0x1_0000_0000_0000_0000) as u64
        } else {
            v as u64
        };
        assert(u as int == twos(v as int, pow64()));
        let hi: u32 = (u / 0x1_0000_0000) as u32;
        let lo: u32 = (u % 0x1_0000_0000) as u32;
        let ghost start = self@;
        self.write_u32(hi);
        self.write_u32(lo);
        assert(final(self)@ =~= start + i64_bytes(v));
    }

    /// Appends a 32-bit floating-point value, given by its IEEE-754 bit
    /// pattern, as the four big-endian bytes of that pattern.
    pub fn write_f32(&mut self, bits: u32)
        ensures
            final(self)@ == old(self)@ + be4(bits as int),
    {
        self.write_u32(bits);
    }

    /// Appends a 64-bit floating-point value, given by its IEEE-754 bit
    /// pattern, as the eight big-endian bytes of that pattern.
    pub fn write_f64(&mut self, bits: u64)
        ensures
            final(self)@ == old(self)@ + be8(bits as int),
    {
        let hi: u32 = (bits / 0x1_0000_0000) as u32;
        let lo: u32 = (bits % 0x1_0000_0000) as u32;
        let ghost start = self@;
        self.write_u32(hi);
        self.write_u32(lo);
        assert(final(self)@ =~= start + be8(bits as int));
    }

    /// Appends a string: its UTF-16 length as an `i16`, then its UTF-16 code
    /// units, big-endian. A string of more than 32767 code units is refused
    /// and nothing is written.
    pub fn write_string(&mut self, v: &str) -> (r: Result<(), WriteError>)
        ensures
            r is Ok <==> string_fits(v@),
            r is Ok ==> final(self)@ == old(self)@ + string_bytes(v@),
            r is Err ==> r == Err::<(), WriteError>(WriteError::StringTooLong) && final(self)@
                == old(self)@,
    {
        let units = encode_utf16(v);
        if units.len() > 0x7FFF {
            return Err(WriteError::StringTooLong);
        }
        let ghost start = self@;
        self.write_u16(units.len() as u16);
        let mut i: usize = 0;
        while i < units.len()
            invariant
                i <= units.len(),
                units@ == utf16(v@),
                self@ == start + be2(units.len() as int) + units_bytes(units@.take(i as int)),
            decreases units.len() - i,
        {
            self.write_u16(units[i]);
            assert(units@.take(i + 1).drop_last() =~= units@.take(i as int));
            i = i + 1;
        }
        assert(units@.take(units.len() as int) =~= units@);
        Ok(())
    }
}

/// Why a value could not be written.
#[derive(Debug, Clone, Copy, PartialEq, Eq)]
pub enum WriteError {
    /// A string longer than 32767 UTF-16 code units.
    StringTooLong,
}

/// The UTF-16 code units of a string, in order.
pub fn encode_utf16(s: &str) -> (units: Vec<u16>)
    ensures
        units@ == utf16(s@),
{
    let mut units: Vec<u16> = Vec::new();
    for c in it: s.chars()
        invariant
            it.seq() == s@,
            units@ == utf16(s@.take(it.index() as int)),
    {
        let ghost before = units@;
        let n: u32 = c as u32;
        proof { vstd::utf8::char_is_scalar(c); }
        assert(n <= 0x10FFFF);
        if n < 0x1_0000 {
            units.push(n as u16);
        } else {
            let m: u32 = n - 0x1_0000;
            units.push((0xD800 + m / 0x400) as u16);
            units.push((0xDC00 + m % 0x400) as u16);
        }
        assert(s@.take(it.index() + 1).drop_last() =~= s@.take(it.index() as int));
        assert(units@ =~= before + utf16_char(c));
    }
    assert(s@.take(s@.len() as int) =~= s@);
    units
}

} // verus!
