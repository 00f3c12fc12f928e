//! The packets the server sends to clients, and their wire form.

use vstd::prelude::*;
use crate::codec::{
    be4, be4_value, be8, be8_value, bool_bytes, i16_bytes, i16_of, i32_bytes, i32_of, i64_bytes,
    i64_of,
    law_integer_roundtrip, string_bytes, string_extent, string_fits, u8_bytes,
};
use crate::reader::{law_read_written_string, string_read, ReadError};
use crate::position::Position;
use crate::world::{chunk_data, Chunk, CompressError, SIZE_X, SIZE_Y, SIZE_Z};
use crate::writer::{PacketWriter, WriteError};

verus! {

/// A packet to a client. Positions sent with entities are in absolute
/// fixed-point form (1/32 of a block) with angles as bytes (1/256 of a
/// turn); a player's own position is sent as floating-point bit patterns.
#[derive(Debug, Clone)]
pub enum ClientboundPacket {
    KeepAlive,
    Login { entity_id: i32, world_seed: i64, dimension: i8 },
    Handshake,
    ChatMessage { message: String },
    SetSpawnPosition { x: i32, y: i32, z: i32 },
    PlayerPositionLook { position: Position, stance: u64 },
    SpawnPlayer {
        entity_id: i32,
        username: String,
        x: i32,
        y: i32,
        z: i32,
        yaw: u8,
        pitch: u8,
        current_item: i16,
    },
    DestroyEntity { entity_id: i32 },
    EntityTeleport { entity_id: i32, x: i32, y: i32, z: i32, yaw: u8, pitch: u8 },
    PlayerCrouch { entity_id: i32, sneaking: bool },
    PreChunk { chunk_x: i32, chunk_z: i32, mode: bool },
    Chunk { chunk_x: i32, chunk_z: i32, data: Vec<u8> },
    Kick { reason: String },
}

/// The wire form of a chunk packet: its id, the chunk's block
/// coordinates, its extent less one along each axis, and the length of the
/// compressed data followed by the data.
pub open spec fn chunk_wire(chunk_x: i32, chunk_z: i32, data: Seq<u8>) -> Seq<u8> {
    u8_bytes(0x33) + i32_bytes((chunk_x * 16) as i32) + i16_bytes(0) + i32_bytes(
        (chunk_z * 16) as i32,
    ) + u8_bytes(15) + u8_bytes(127) + u8_bytes(15) + i32_bytes(data.len() as i32) + data
}

/// The string the server answers a handshake with.
pub open spec fn handshake_reply() -> Seq<char> {
    seq!['-']
}

impl ClientboundPacket {
    /// Whether every string in the packet fits the wire's length prefix.
    pub open spec fn fits(&self) -> bool {
        match self {
            ClientboundPacket::ChatMessage { message } => string_fits(message@),
            ClientboundPacket::SpawnPlayer { username, .. } => string_fits(username@),
            ClientboundPacket::Kick { reason } => string_fits(reason@),
            _ => true,
        }
    }

    /// Whether the packet can be written without arithmetic overflow: a
    /// chunk's block coordinates (16 times its chunk coordinates) must be
    /// `i32` values.
    pub open spec fn writable(&self) -> bool {
        match self {
            ClientboundPacket::Chunk { chunk_x, chunk_z, .. } => {
                &&& i32::MIN <= *chunk_x * 16 <= i32::MAX
                &&& i32::MIN <= *chunk_z * 16 <= i32::MAX
            },
            _ => true,
        }
    }

    /// The wire form of the packet: its id byte, then its fields.
    pub open spec fn wire(&self) -> Seq<u8> {
        match self {
            ClientboundPacket::KeepAlive => u8_bytes(0x00),
            ClientboundPacket::Login { entity_id, world_seed, dimension } => u8_bytes(0x01)
                + i32_bytes(*entity_id) + string_bytes(Seq::empty()) + i64_bytes(*world_seed)
                + u8_bytes(*dimension as u8),
            ClientboundPacket::Handshake => u8_bytes(0x02) + string_bytes(handshake_reply()),
            ClientboundPacket::ChatMessage { message } => u8_bytes(0x03) + string_bytes(
                message@,
            ),
            ClientboundPacket::SetSpawnPosition { x, y, z } => u8_bytes(0x06) + i32_bytes(*x)
                + i32_bytes(*y) + i32_bytes(*z),
            ClientboundPacket::PlayerPositionLook { position, stance } => u8_bytes(0x0D) + be8(
                position.x as int,
            ) + be8(*stance as int) + be8(position.y as int) + be8(position.z as int) + be4(
                position.yaw as int,
            ) + be4(position.pitch as int) + bool_bytes(position.on_ground),
            ClientboundPacket::SpawnPlayer {
                entity_id,
                username,
                x,
                y,
                z,
                yaw,
                pitch,
                current_item,
            } => u8_bytes(0x14) + i32_bytes(*entity_id) + string_bytes(username@) + i32_bytes(
                *x,
            ) + i32_bytes(*y) + i32_bytes(*z) + u8_bytes(*yaw) + u8_bytes(*pitch) + i16_bytes(
                *current_item,
            ),
            ClientboundPacket::DestroyEntity { entity_id } => u8_bytes(0x1D) + i32_bytes(
                *entity_id,
            ),
            ClientboundPacket::EntityTeleport { entity_id, x, y, z, yaw, pitch } => u8_bytes(
                0x22,
            ) + i32_bytes(*entity_id) + i32_bytes(*x) + i32_bytes(*y) + i32_bytes(*z) + u8_bytes(
                *yaw,
            ) + u8_bytes(*pitch),
            ClientboundPacket::PlayerCrouch { entity_id, sneaking } => u8_bytes(0x28) + i32_bytes(
                *entity_id,
            ) + u8_bytes(0x00) + u8_bytes(if *sneaking { 0x02 } else { 0x00 }) + u8_bytes(0x7F),
            ClientboundPacket::PreChunk { chunk_x, chunk_z, mode } => u8_bytes(0x32) + i32_bytes(
                *chunk_x,
            ) + i32_bytes(*chunk_z) + bool_bytes(*mode),
            ClientboundPacket::Chunk { chunk_x, chunk_z, data } => chunk_wire(
                *chunk_x,
                *chunk_z,
                data@,
            ),
            ClientboundPacket::Kick { reason } => u8_bytes(0xFF) + string_bytes(reason@),
        }
    }

    /// What a write that fails on a string too long leaves behind: the
    /// fields before that string.
    pub open spec fn wire_before_failure(&self) -> Seq<u8> {
        match self {
            ClientboundPacket::ChatMessage { .. } => u8_bytes(0x03),
            ClientboundPacket::SpawnPlayer { entity_id, .. } => u8_bytes(0x14) + i32_bytes(
                *entity_id,
            ),
            ClientboundPacket::Kick { .. } => u8_bytes(0xFF),
            _ => Seq::empty(),
        }
    }

    /// The packet that sends `chunk`, its arrays compressed. Fails exactly
    /// when compressing the chunk fails.
    pub fn from_chunk(chunk: &Chunk) -> (r: Result<ClientboundPacket, CompressError>)
        ensures
            match chunk_data(chunk@) {
                Some(d) => r matches Ok(p) && p matches ClientboundPacket::Chunk {
                    chunk_x,
                    chunk_z,
                    data,
                } && chunk_x == chunk@.x && chunk_z == chunk@.z && data@ == d,
                None => r == Err::<ClientboundPacket, CompressError>(CompressError),
            },
    {
        let (chunk_x, chunk_z) = chunk.coords();
        Ok(ClientboundPacket::Chunk { chunk_x, chunk_z, data: chunk.compressed()? })
    }

    /// Writes the packet. It fails exactly when one of its strings is too
    /// long, after writing the fields before that string.
    #[verifier::rlimit(40)]
    pub fn write(&self, writer: &mut PacketWriter) -> (r: Result<(), WriteError>)
        requires
            self.writable(),
        ensures
            r is Ok <==> self.fits(),
            r is Ok ==> final(writer)@ == old(writer)@ + self.wire(),
            r is Err ==> r == Err::<(), WriteError>(WriteError::StringTooLong) && final(writer)@
                == old(writer)@ + self.wire_before_failure(),
    {
        let ghost start = writer@;
        match self {
            ClientboundPacket::KeepAlive => {
                writer.write_u8(0x00);
            },
            ClientboundPacket::Login { entity_id, world_seed, dimension } => {
                writer.write_u8(0x01);
                writer.write_i32(*entity_id);
                proof {
                    reveal_strlit("");
                    assert(""@ =~= Seq::<char>::empty());
                }
                let r = writer.write_string("");
                assert(r is Ok);
                writer.write_i64(*world_seed);
                writer.write_u8(#[verifier::truncate] (*dimension as u8));
            },
            ClientboundPacket::Handshake => {
                writer.write_u8(0x02);
                proof {
                    reveal_strlit("-");
                    reveal_with_fuel(crate::codec::utf16, 2);
                    assert("-"@ =~= handshake_reply());
                }
                let r = writer.write_string("-");
                assert(r is Ok);
            },
            ClientboundPacket::ChatMessage { message } => {
                writer.write_u8(0x03);
                writer.write_string(message.as_str())?;
            },
            ClientboundPacket::SetSpawnPosition { x, y, z } => {
                writer.write_u8(0x06);
                writer.write_i32(*x);
                writer.write_i32(*y);
                writer.write_i32(*z);
            },
            ClientboundPacket::PlayerPositionLook { position, stance } => {
                writer.write_u8(0x0D);
                writer.write_f64(position.x);
                writer.write_f64(*stance);
                writer.write_f64(position.y);
                writer.write_f64(position.z);
                writer.write_f32(position.yaw);
                writer.write_f32(position.pitch);
                writer.write_bool(position.on_ground);
            },
            ClientboundPacket::SpawnPlayer {
                entity_id,
                username,
                x,
                y,
                z,
                yaw,
                pitch,
                current_item,
            } => {
                writer.write_u8(0x14);
                writer.write_i32(*entity_id);
                writer.write_string(username.as_str())?;
                writer.write_i32(*x);
                writer.write_i32(*y);
                writer.write_i32(*z);
                writer.write_u8(*yaw);
                writer.write_u8(*pitch);
                writer.write_i16(*current_item);
            },
            ClientboundPacket::DestroyEntity { entity_id } => {
                writer.write_u8(0x1D);
                writer.write_i32(*entity_id);
            },
            ClientboundPacket::EntityTeleport { entity_id, x, y, z, yaw, pitch } => {
                writer.write_u8(0x22);
                writer.write_i32(*entity_id);
                writer.write_i32(*x);
                writer.write_i32(*y);
                writer.write_i32(*z);
                writer.write_u8(*yaw);
                writer.write_u8(*pitch);
            },
            ClientboundPacket::PlayerCrouch { entity_id, sneaking } => {
                writer.write_u8(0x28);
                writer.write_i32(*entity_id);
                writer.write_u8(0x00);
                writer.write_u8(if *sneaking { 0x02 } else { 0x00 });
                writer.write_u8(0x7F);
            },
            ClientboundPacket::PreChunk { chunk_x, chunk_z, mode } => {
                writer.write_u8(0x32);
                writer.write_i32(*chunk_x);
                writer.write_i32(*chunk_z);
                writer.write_bool(*mode);
            },
            ClientboundPacket::Chunk { chunk_x, chunk_z, data } => {
                writer.write_u8(0x33);
                writer.write_i32(*chunk_x * 16);
                writer.write_i16(0);
                writer.write_i32(*chunk_z * 16);
                writer.write_u8((SIZE_X - 1) as u8);
                writer.write_u8((SIZE_Y - 1) as u8);
                writer.write_u8((SIZE_Z - 1) as u8);
                writer.write_i32(#[verifier::truncate] (data.len() as i32));
                writer.write_bytes(data.as_slice());
            },
            ClientboundPacket::Kick { reason } => {
                writer.write_u8(0xFF);
                writer.write_string(reason.as_str())?;
            },
        }
        assert(writer@ =~= start + self.wire());
        Ok(())
    }
}

/// A spawn-player packet carries each field as given, in order: decoding
/// its wire form gives the id byte 0x14, the entity id as a big-endian
/// `i32`, the username as a length-prefixed UTF-16 string, the x, y and z
/// fixed-point coordinates as `i32`s, one byte of yaw, one byte of pitch,
/// and the held item as an `i16`, with nothing after it.
#[verifier::rlimit(60)]
pub proof fn law_spawn_player_reads_back(p: ClientboundPacket)
    requires
        p.fits(),
    ensures
        p matches ClientboundPacket::SpawnPlayer {
            entity_id,
            username,
            x,
            y,
            z,
            yaw,
            pitch,
            current_item,
        } ==> {
            let w = p.wire();
            let e = string_extent(w.skip(5));
            &&& e == string_bytes(username@).len()
            &&& w.len() == 21 + e
            &&& w[0] == 0x14
            &&& i32_of(w.subrange(1, 5)) == entity_id
            &&& string_read(w.skip(5)) == Ok::<Seq<char>, ReadError>(username@)
            &&& i32_of(w.subrange(5 + e, 9 + e)) == x
            &&& i32_of(w.subrange(9 + e, 13 + e)) == y
            &&& i32_of(w.subrange(13 + e, 17 + e)) == z
            &&& w[17 + e] == yaw
            &&& w[18 + e] == pitch
            &&& i16_of(w.subrange(19 + e, 21 + e)) == current_item
        },
{
    if let ClientboundPacket::SpawnPlayer {
        entity_id,
        username,
        x,
        y,
        z,
        yaw,
        pitch,
        current_item,
    } = p {
        law_integer_roundtrip(current_item, entity_id, 0, 0, 0);
        law_integer_roundtrip(0, x, 0, 0, 0);
        law_integer_roundtrip(0, y, 0, 0, 0);
        law_integer_roundtrip(0, z, 0, 0, 0);
        let name = string_bytes(username@);
        let tail = i32_bytes(x) + i32_bytes(y) + i32_bytes(z) + u8_bytes(yaw) + u8_bytes(pitch)
            + i16_bytes(current_item);
        law_read_written_string(username@, tail);
        let w = p.wire();
        let e = name.len() as int;
        assert(w =~= u8_bytes(0x14) + i32_bytes(entity_id) + (name + tail));
        assert(w.skip(5) =~= name + tail);
        assert(w.subrange(1, 5) =~= i32_bytes(entity_id));
        assert(w.subrange(5 + e, 9 + e) =~= i32_bytes(x));
        assert(w.subrange(9 + e, 13 + e) =~= i32_bytes(y));
        assert(w.subrange(13 + e, 17 + e) =~= i32_bytes(z));
        assert(w.subrange(19 + e, 21 + e) =~= i16_bytes(current_item));
    }
}

/// An entity-teleport packet carries each field as given, in order: the id
/// byte 0x22, the entity id, the x, y and z fixed-point coordinates as
/// big-endian `i32`s, then one byte of yaw and one of pitch.
pub proof fn law_entity_teleport_reads_back(p: ClientboundPacket)
    ensures
        p matches ClientboundPacket::EntityTeleport { entity_id, x, y, z, yaw, pitch } ==> {
            let w = p.wire();
            &&& w.len() == 19
            &&& w[0] == 0x22
            &&& i32_of(w.subrange(1, 5)) == entity_id
            &&& i32_of(w.subrange(5, 9)) == x
            &&& i32_of(w.subrange(9, 13)) == y
            &&& i32_of(w.subrange(13, 17)) == z
            &&& w[17] == yaw
            &&& w[18] == pitch
        },
{
    if let ClientboundPacket::EntityTeleport { entity_id, x, y, z, yaw, pitch } = p {
        law_integer_roundtrip(0, entity_id, 0, 0, 0);
        law_integer_roundtrip(0, x, 0, 0, 0);
        law_integer_roundtrip(0, y, 0, 0, 0);
        law_integer_roundtrip(0, z, 0, 0, 0);
        let w = p.wire();
        assert(w.subrange(1, 5) =~= i32_bytes(entity_id));
        assert(w.subrange(5, 9) =~= i32_bytes(x));
        assert(w.subrange(9, 13) =~= i32_bytes(y));
        assert(w.subrange(13, 17) =~= i32_bytes(z));
    }
}

/// A player's own position is sent as floating-point bit patterns in the
/// order x, stance, y, z, yaw, pitch, then the on-ground flag, after the id
/// byte 0x0D; decoding each field gives it back.
pub proof fn law_position_look_reads_back(p: ClientboundPacket)
    ensures
        p matches ClientboundPacket::PlayerPositionLook { position, stance } ==> {
            let w = p.wire();
            &&& w.len() == 42
            &&& w[0] == 0x0D
            &&& be8_value(w.subrange(1, 9)) == position.x
            &&& be8_value(w.subrange(9, 17)) == stance
            &&& be8_value(w.subrange(17, 25)) == position.y
            &&& be8_value(w.subrange(25, 33)) == position.z
            &&& be4_value(w.subrange(33, 37)) == position.yaw
            &&& be4_value(w.subrange(37, 41)) == position.pitch
            &&& (w[41] != 0) == position.on_ground
        },
{
    if let ClientboundPacket::PlayerPositionLook { position, stance } = p {
        law_integer_roundtrip(0, 0, 0, position.yaw, position.x);
        law_integer_roundtrip(0, 0, 0, position.pitch, stance);
        law_integer_roundtrip(0, 0, 0, 0, position.y);
        law_integer_roundtrip(0, 0, 0, 0, position.z);
        let w = p.wire();
        assert(w.subrange(1, 9) =~= be8(position.x as int));
        assert(w.subrange(9, 17) =~= be8(stance as int));
        assert(w.subrange(17, 25) =~= be8(position.y as int));
        assert(w.subrange(25, 33) =~= be8(position.z as int));
        assert(w.subrange(33, 37) =~= be4(position.yaw as int));
        assert(w.subrange(37, 41) =~= be4(position.pitch as int));
    }
}

/// The small entity and world packets carry their fields as given: a
/// login answer holds the entity id, an empty string, the world seed and
/// the dimension byte; a spawn position its three coordinates; a destroy
/// packet the entity id; a crouch packet the entity id, a zero byte, then
/// 2 when sneaking and 0 when not, then 0x7F; a pre-chunk packet both chunk
/// coordinates and the mode flag.
pub proof fn law_entity_packets_read_back(p: ClientboundPacket)
    ensures
        p matches ClientboundPacket::Login { entity_id, world_seed, dimension } ==> {
            let w = p.wire();
            &&& w.len() == 16
            &&& w[0] == 0x01
            &&& i32_of(w.subrange(1, 5)) == entity_id
            &&& string_read(w.skip(5)) == Ok::<Seq<char>, ReadError>(Seq::empty())
            &&& i64_of(w.subrange(7, 15)) == world_seed
            &&& w[15] == dimension as u8
        },
        p matches ClientboundPacket::SetSpawnPosition { x, y, z } ==> {
            let w = p.wire();
            &&& w.len() == 13
            &&& w[0] == 0x06
            &&& i32_of(w.subrange(1, 5)) == x
            &&& i32_of(w.subrange(5, 9)) == y
            &&& i32_of(w.subrange(9, 13)) == z
        },
        p matches ClientboundPacket::DestroyEntity { entity_id } ==> {
            let w = p.wire();
            &&& w.len() == 5
            &&& w[0] == 0x1D
            &&& i32_of(w.subrange(1, 5)) == entity_id
        },
        p matches ClientboundPacket::PlayerCrouch { entity_id, sneaking } ==> {
            let w = p.wire();
            &&& w.len() == 8
            &&& w[0] == 0x28
            &&& i32_of(w.subrange(1, 5)) == entity_id
            &&& w[5] == 0
            &&& w[6] == if sneaking { 2u8 } else { 0u8 }
            &&& w[7] == 0x7F
        },
        p matches ClientboundPacket::PreChunk { chunk_x, chunk_z, mode } ==> {
            let w = p.wire();
            &&& w.len() == 10
            &&& w[0] == 0x32
            &&& i32_of(w.subrange(1, 5)) == chunk_x
            &&& i32_of(w.subrange(5, 9)) == chunk_z
            &&& (w[9] != 0) == mode
        },
{
    match p {
        ClientboundPacket::Login { entity_id, world_seed, dimension } => {
            law_integer_roundtrip(0, entity_id, world_seed, 0, 0);
            let tail = i64_bytes(world_seed) + u8_bytes(dimension as u8);
            law_read_written_string(Seq::empty(), tail);
            let w = p.wire();
            assert(crate::codec::utf16(Seq::<char>::empty()) =~= Seq::<u16>::empty());
            assert(string_bytes(Seq::empty()).len() == 2);
            assert(w.subrange(1, 5) =~= i32_bytes(entity_id));
            assert(w.skip(5) =~= string_bytes(Seq::empty()) + tail);
            assert(w.subrange(7, 15) =~= i64_bytes(world_seed));
        },
        ClientboundPacket::SetSpawnPosition { x, y, z } => {
            law_integer_roundtrip(0, x, 0, 0, 0);
            law_integer_roundtrip(0, y, 0, 0, 0);
            law_integer_roundtrip(0, z, 0, 0, 0);
            let w = p.wire();
            assert(w.subrange(1, 5) =~= i32_bytes(x));
            assert(w.subrange(5, 9) =~= i32_bytes(y));
            assert(w.subrange(9, 13) =~= i32_bytes(z));
        },
        ClientboundPacket::DestroyEntity { entity_id } => {
            law_integer_roundtrip(0, entity_id, 0, 0, 0);
            assert(p.wire().subrange(1, 5) =~= i32_bytes(entity_id));
        },
        ClientboundPacket::PlayerCrouch { entity_id, sneaking } => {
            law_integer_roundtrip(0, entity_id, 0, 0, 0);
            assert(p.wire().subrange(1, 5) =~= i32_bytes(entity_id));
        },
        ClientboundPacket::PreChunk { chunk_x, chunk_z, mode } => {
            law_integer_roundtrip(0, chunk_x, 0, 0, 0);
            law_integer_roundtrip(0, chunk_z, 0, 0, 0);
            let w = p.wire();
            assert(w.subrange(1, 5) =~= i32_bytes(chunk_x));
            assert(w.subrange(5, 9) =~= i32_bytes(chunk_z));
        },
        _ => {},
    }
}

/// Text packets carry their string as given: a chat packet (id 0x03) and a
/// kick packet (id 0xFF) are the id byte then the string, which reads back
/// as the message or reason and takes the rest of the packet.
pub proof fn law_text_packets_read_back(p: ClientboundPacket)
    requires
        p.fits(),
    ensures
        p matches ClientboundPacket::ChatMessage { message } ==> {
            let w = p.wire();
            &&& w[0] == 0x03
            &&& string_read(w.skip(1)) == Ok::<Seq<char>, ReadError>(message@)
            &&& w.len() == 1 + string_extent(w.skip(1))
        },
        p matches ClientboundPacket::Kick { reason } ==> {
            let w = p.wire();
            &&& w[0] == 0xFF
            &&& string_read(w.skip(1)) == Ok::<Seq<char>, ReadError>(reason@)
            &&& w.len() == 1 + string_extent(w.skip(1))
        },
{
    match p {
        ClientboundPacket::ChatMessage { message } => {
            law_read_written_string(message@, Seq::empty());
            assert(p.wire().skip(1) =~= string_bytes(message@) + Seq::<u8>::empty());
        },
        ClientboundPacket::Kick { reason } => {
            law_read_written_string(reason@, Seq::empty());
            assert(p.wire().skip(1) =~= string_bytes(reason@) + Seq::<u8>::empty());
        },
        _ => {},
    }
}

/// A chunk packet is the id byte 0x33, the chunk's block coordinates (16
/// times its chunk coordinates) with a zero height between them, the extent
/// less one along x, y and z (15, 127, 15), the data's length as an `i32`,
/// then the data itself.
pub proof fn law_chunk_packet_reads_back(p: ClientboundPacket)
    requires
        p.writable(),
        p matches ClientboundPacket::Chunk { data, .. } ==> data@.len() <= i32::MAX,
    ensures
        p matches ClientboundPacket::Chunk { chunk_x, chunk_z, data } ==> {
            let w = p.wire();
            &&& w.len() == 18 + data@.len()
            &&& w[0] == 0x33
            &&& i32_of(w.subrange(1, 5)) == chunk_x * 16
            &&& i16_of(w.subrange(5, 7)) == 0
            &&& i32_of(w.subrange(7, 11)) == chunk_z * 16
            &&& w[11] == 15 && w[12] == 127 && w[13] == 15
            &&& i32_of(w.subrange(14, 18)) == data@.len()
            &&& w.skip(18) == data@
        },
{
    if let ClientboundPacket::Chunk { chunk_x, chunk_z, data } = p {
        let bx = (chunk_x * 16) as i32;
        let bz = (chunk_z * 16) as i32;
        let n = data@.len() as i32;
        law_integer_roundtrip(0, bx, 0, 0, 0);
        law_integer_roundtrip(0, bz, 0, 0, 0);
        law_integer_roundtrip(0, n, 0, 0, 0);
        law_integer_roundtrip(0, 0, 0, 0, 0);
        let w = p.wire();
        assert(w.subrange(1, 5) =~= i32_bytes(bx));
        assert(w.subrange(5, 7) =~= i16_bytes(0));
        assert(w.subrange(7, 11) =~= i32_bytes(bz));
        assert(w.subrange(14, 18) =~= i32_bytes(n));
        assert(w.skip(18) =~= data@);
    }
}

} // verus!
