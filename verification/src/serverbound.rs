//! The packets a client sends while logging in.

use vstd::prelude::*;
use crate::codec::{i32_of, i64_of, signed, string_extent, string_length_ok};
use crate::reader::{law_read_written_string, string_read, PacketReader, ReadError};
use crate::clientbound::{handshake_reply, ClientboundPacket};
use crate::codec::{
    i32_bytes, i64_bytes, law_integer_roundtrip, string_bytes, string_fits, u8_bytes, utf16,
};

verus! {

/// The first packet of a connection: who is connecting.
#[derive(Debug)]
pub struct Handshake {
    pub username: String,
}

/// The login request that follows the handshake.
#[derive(Debug)]
pub struct Login {
    pub protocol_version: i32,
    pub username: String,
    pub world_seed: i64,
    pub dimension: i8,
}

/// Id of the handshake packet.
pub const HANDSHAKE_ID: u8 = 0x02;

/// Id of the login packet.
pub const LOGIN_ID: u8 = 0x01;

/// `s` with its first `n` bytes dropped, as the rest of a reader.
proof fn lemma_string_length_ok_skip(s: Seq<u8>, n: int)
    requires
        0 <= n <= s.len(),
        string_length_ok(s, n),
    ensures
        string_length_ok(s.skip(n), 0),
{
    if s.skip(n).len() >= 2 {
        assert(s.skip(n).subrange(0, 2) =~= s.subrange(n, n + 2));
    }
}

/// How many bytes a packet read has consumed when the string that starts
/// `at` bytes in fails: up to the end of the string when its units are not
/// valid UTF-16, none when the bytes end early.
pub open spec fn failed_string_at(e: ReadError, s: Seq<u8>, at: int) -> int {
    if e == ReadError::InvalidUtf16 {
        at + string_extent(s.skip(at))
    } else {
        0
    }
}

/// Reads a handshake packet: the id 0x02, then the username. Fails on
/// another id having consumed the id byte; when the bytes end early,
/// consuming nothing; and when the username is not valid UTF-16, having
/// consumed the whole packet. A negative username length is not accepted.
pub fn read_handshake(reader: &mut PacketReader) -> (r: Result<Handshake, ReadError>)
    requires
        old(reader)@.len() >= 1 && old(reader)@[0] == HANDSHAKE_ID ==> string_length_ok(
            old(reader)@,
            1,
        ),
    ensures
        ({
            let s = old(reader)@;
            if s.len() < 1 {
                r == Err::<Handshake, ReadError>(ReadError::UnexpectedEof) && *final(reader)
                    == *old(reader)
            } else if s[0] != HANDSHAKE_ID {
                r == Err::<Handshake, ReadError>(
                    ReadError::UnexpectedPacket { expected: HANDSHAKE_ID, found: s[0] },
                ) && final(reader).advanced_from(*old(reader), 1)
            } else {
                match string_read(s.skip(1)) {
                    Err(e) => r == Err::<Handshake, ReadError>(e) && final(reader).left_after(
                        *old(reader),
                        failed_string_at(e, s, 1),
                    ),
                    Ok(t) => r is Ok && r->Ok_0.username@ == t && final(reader).advanced_from(
                        *old(reader),
                        1 + string_extent(s.skip(1)),
                    ),
                }
            }
        }),
{
    let saved = *reader;
    let packet_id = reader.read_u8()?;
    if packet_id != HANDSHAKE_ID {
        return Err(ReadError::UnexpectedPacket { expected: HANDSHAKE_ID, found: packet_id });
    }
    proof { lemma_string_length_ok_skip(old(reader)@, 1); }
    match reader.read_string() {
        Ok(username) => {
            assert(final(reader)@ =~= old(reader)@.skip(1 + string_extent(old(reader)@.skip(1))));
            Ok(Handshake { username })
        },
        Err(ReadError::InvalidUtf16) => {
            assert(final(reader)@ =~= old(reader)@.skip(1 + string_extent(old(reader)@.skip(1))));
            Err(ReadError::InvalidUtf16)
        },
        Err(e) => {
            *reader = saved;
            Err(e)
        },
    }
}

/// Reads a login packet: the id 0x01, the protocol version (`i32`), the
/// username, the world seed (`i64`) and the dimension (one byte, read as
/// an `i8`). Fails on another id having consumed the id byte; when the
/// bytes end early, consuming nothing; and when the username is not valid
/// UTF-16, having consumed everything up to the end of the username. A
/// negative username length is not accepted.
pub fn read_login(reader: &mut PacketReader) -> (r: Result<Login, ReadError>)
    requires
        old(reader)@.len() >= 1 && old(reader)@[0] == LOGIN_ID ==> string_length_ok(
            old(reader)@,
            5,
        ),
    ensures
        ({
            let s = old(reader)@;
            if s.len() < 1 {
                r == Err::<Login, ReadError>(ReadError::UnexpectedEof) && *final(reader)
                    == *old(reader)
            } else if s[0] != LOGIN_ID {
                r == Err::<Login, ReadError>(
                    ReadError::UnexpectedPacket { expected: LOGIN_ID, found: s[0] },
                ) && final(reader).advanced_from(*old(reader), 1)
            } else if s.len() < 5 {
                r == Err::<Login, ReadError>(ReadError::UnexpectedEof) && *final(reader)
                    == *old(reader)
            } else {
                match string_read(s.skip(5)) {
                    Err(e) => r == Err::<Login, ReadError>(e) && final(reader).left_after(
                        *old(reader),
                        failed_string_at(e, s, 5),
                    ),
                    Ok(t) => {
                        let e = 5 + string_extent(s.skip(5));
                        if s.len() < e + 9 {
                            r == Err::<Login, ReadError>(ReadError::UnexpectedEof)
                                && *final(reader) == *old(reader)
                        } else {
                            &&& r is Ok
                            &&& r->Ok_0.protocol_version == i32_of(s.subrange(1, 5))
                            &&& r->Ok_0.username@ == t
                            &&& r->Ok_0.world_seed == i64_of(s.subrange(e, e + 8))
                            &&& r->Ok_0.dimension == signed(s[e + 8] as int, 0x100)
                            &&& final(reader).advanced_from(*old(reader), e + 9)
                        }
                    },
                }
            }
        }),
{
    let saved = *reader;
    let ghost s = reader@;
    let packet_id = reader.read_u8()?;
    if packet_id != LOGIN_ID {
        return Err(ReadError::UnexpectedPacket { expected: LOGIN_ID, found: packet_id });
    }
    let protocol_version = match reader.read_i32() {
        Ok(v) => v,
        Err(e) => {
            *reader = saved;
            return Err(e);
        },
    };
    assert(s.skip(1).take(4) =~= s.subrange(1, 5));
    assert(reader@ =~= s.skip(5));
    proof { lemma_string_length_ok_skip(s, 5); }
    let username = match reader.read_string() {
        Ok(v) => v,
        Err(ReadError::InvalidUtf16) => {
            assert(reader@ =~= s.skip(5 + string_extent(s.skip(5))));
            return Err(ReadError::InvalidUtf16);
        },
        Err(e) => {
            *reader = saved;
            return Err(e);
        },
    };
    let ghost e = 5 + string_extent(s.skip(5));
    assert(reader@ =~= s.skip(e));
    let world_seed = match reader.read_i64() {
        Ok(v) => v,
        Err(e) => {
            *reader = saved;
            return Err(e);
        },
    };
    assert(s.skip(e).take(8) =~= s.subrange(e, e + 8));
    let dimension_byte = match reader.read_u8() {
        Ok(v) => v,
        Err(e) => {
            *reader = saved;
            return Err(e);
        },
    };
    assert(final(reader)@ =~= s.skip(e + 9));
    let dimension: i8 = if dimension_byte >= 0x80 {
        (dimension_byte as i16 - 0x100) as i8
    } else {
        dimension_byte as i8
    };
    Ok(Login { protocol_version, username, world_seed, dimension })
}

/// The server's handshake reply is a handshake a client-side reader takes
/// in: read back with `read_handshake`, it gives the name "-" and consumes
/// exactly the reply.
pub proof fn law_handshake_reply_reads_back(rest: Seq<u8>)
    ensures
        ({
            let b = ClientboundPacket::Handshake.wire() + rest;
            &&& b[0] == HANDSHAKE_ID
            &&& string_length_ok(b, 1)
            &&& string_read(b.skip(1)) == Ok::<Seq<char>, ReadError>(handshake_reply())
            &&& 1 + string_extent(b.skip(1)) == ClientboundPacket::Handshake.wire().len()
        }),
{
    reveal_with_fuel(utf16, 2);
    assert(string_fits(handshake_reply()));
    let b = ClientboundPacket::Handshake.wire() + rest;
    law_read_written_string(handshake_reply(), rest);
    assert(b.skip(1) =~= string_bytes(handshake_reply()) + rest);
    assert(b.subrange(1, 3) =~= (string_bytes(handshake_reply()) + rest).subrange(0, 2));
}

/// The server's login reply has the layout of a login request: read back
/// with `read_login`, it gives the entity id as the protocol version, an
/// empty name, the world seed and the dimension, and consumes exactly the
/// reply.
pub proof fn law_login_reply_reads_back(
    entity_id: i32,
    world_seed: i64,
    dimension: i8,
    rest: Seq<u8>,
)
    ensures
        ({
            let w = ClientboundPacket::Login { entity_id, world_seed, dimension }.wire();
            let b = w + rest;
            let e = 5 + string_extent(b.skip(5));
            &&& b[0] == LOGIN_ID
            &&& string_length_ok(b, 5)
            &&& string_read(b.skip(5)) == Ok::<Seq<char>, ReadError>(Seq::empty())
            &&& e + 9 == w.len()
            &&& i32_of(b.subrange(1, 5)) == entity_id
            &&& i64_of(b.subrange(e, e + 8)) == world_seed
            &&& signed(b[e + 8] as int, 0x100) == dimension
        }),
{
    let w = ClientboundPacket::Login { entity_id, world_seed, dimension }.wire();
    let b = w + rest;
    law_integer_roundtrip(0, entity_id, world_seed, 0, 0);
    assert(string_fits(Seq::<char>::empty()));
    let sb = string_bytes(Seq::<char>::empty());
    law_read_written_string(Seq::empty(), i64_bytes(world_seed) + u8_bytes(dimension as u8) + rest);
    assert(b.skip(5) =~= sb + (i64_bytes(world_seed) + u8_bytes(dimension as u8) + rest));
    assert(b.subrange(5, 7) =~= (sb + (i64_bytes(world_seed) + u8_bytes(dimension as u8)
        + rest)).subrange(0, 2));
    assert(b.subrange(1, 5) =~= i32_bytes(entity_id));
    assert(b.subrange(7, 15) =~= i64_bytes(world_seed));
    assert(b[15] == dimension as u8);
    assert(signed((dimension as u8) as int, 0x100) == dimension) by (bit_vector);
}

} // verus!
