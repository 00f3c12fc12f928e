//! The packets a client sends once logged in: how each is read, and what
//! handling it asks of the connection.

use vstd::prelude::*;
use crate::clientbound::ClientboundPacket;
use crate::codec::{
    be4, be4_value, be8, be8_value, bool_bytes, i16_bytes, i16_of, i32_bytes, i32_of,
    law_integer_roundtrip, string_bytes, string_extent, string_fits, string_length_ok, u8_bytes,
};
use crate::position::Position;
use crate::reader::{
    law_read_written_string, string_error_extent, string_read, PacketReader, ReadError,
};

verus! {

/// Whether a read of a packet with `n` bytes of fields behaved as it
/// should: with at least `n` bytes there it gives `v` and consumes `n`
/// bytes, otherwise it fails and consumes nothing.
pub open spec fn fixed_read<'a, T>(
    r: Result<T, ReadError>,
    before: PacketReader<'a>,
    after: PacketReader<'a>,
    n: int,
    v: T,
) -> bool {
    if before@.len() >= n {
        r == Ok::<T, ReadError>(v) && after.advanced_from(before, n)
    } else {
        r == Err::<T, ReadError>(ReadError::UnexpectedEof) && after == before
    }
}

/// The client is still there.
#[derive(Debug, Clone, Copy, PartialEq, Eq, Structural)]
pub struct KeepAlivePacket;

impl KeepAlivePacket {
    /// The bytes of the packet's fields, after its id.
    pub open spec fn wire_len() -> int {
        0
    }

    /// The packet that the first bytes of `s` hold.
    pub open spec fn parsed(s: Seq<u8>) -> KeepAlivePacket {
        KeepAlivePacket
    }

    /// Reads the packet's fields (its id already read). Fails, consuming
    /// nothing, when the bytes end early.
    pub fn read(reader: &mut PacketReader) -> (r: Result<KeepAlivePacket, ReadError>)
        ensures
            fixed_read(
                r,
                *old(reader),
                *final(reader),
                Self::wire_len(),
                Self::parsed(old(reader)@),
            ),
    {
        assert(reader@.skip(0) =~= reader@);
        Ok(KeepAlivePacket)
    }
}

/// Whether the player stands on the ground.
#[derive(Debug, Clone, Copy, PartialEq, Eq, Structural)]
pub struct PlayerFlyingPacket {
    pub on_ground: bool,
}

impl PlayerFlyingPacket {
    /// The bytes of the packet's fields, after its id.
    pub open spec fn wire_len() -> int {
        1
    }

    /// The packet that the first bytes of `s` hold.
    pub open spec fn parsed(s: Seq<u8>) -> PlayerFlyingPacket {
        PlayerFlyingPacket {
            on_ground: s[0] != 0,
        }
    }

    /// Reads the packet's fields (its id already read). Fails, consuming
    /// nothing, when the bytes end early.
    pub fn read(reader: &mut PacketReader) -> (r: Result<PlayerFlyingPacket, ReadError>)
        ensures
            fixed_read(
                r,
                *old(reader),
                *final(reader),
                Self::wire_len(),
                Self::parsed(old(reader)@),
            ),
    {
        if reader.remaining() < 1 {
            return Err(ReadError::UnexpectedEof);
        }
        let ghost s = reader@;
        let on_ground = reader.read_bool()?;
        assert(reader@ =~= s.skip(1));
        Ok(PlayerFlyingPacket { on_ground })
    }
}

/// The player moved; coordinates are `f64` bit patterns.
#[derive(Debug, Clone, Copy, PartialEq, Eq, Structural)]
pub struct PlayerPositionPacket {
    pub x: u64,
    pub y: u64,
    pub stance: u64,
    pub z: u64,
    pub on_ground: bool,
}

impl PlayerPositionPacket {
    /// The bytes of the packet's fields, after its id.
    pub open spec fn wire_len() -> int {
        33
    }

    /// The packet that the first bytes of `s` hold.
    pub open spec fn parsed(s: Seq<u8>) -> PlayerPositionPacket {
        PlayerPositionPacket {
            x: be8_value(s.subrange(0, 8)) as u64,
            y: be8_value(s.subrange(8, 16)) as u64,
            stance: be8_value(s.subrange(16, 24)) as u64,
            z: be8_value(s.subrange(24, 32)) as u64,
            on_ground: s[32] != 0,
        }
    }

    /// Reads the packet's fields (its id already read). Fails, consuming
    /// nothing, when the bytes end early.
    pub fn read(reader: &mut PacketReader) -> (r: Result<PlayerPositionPacket, ReadError>)
        ensures
            fixed_read(
                r,
                *old(reader),
                *final(reader),
                Self::wire_len(),
                Self::parsed(old(reader)@),
            ),
    {
        if reader.remaining() < 33 {
            return Err(ReadError::UnexpectedEof);
        }
        let ghost s = reader@;
        let x = reader.read_f64()?;
        assert(s.skip(0).take(8) =~= s.subrange(0, 8));
        assert(reader@ =~= s.skip(8));
        let y = reader.read_f64()?;
        assert(s.skip(8).take(8) =~= s.subrange(8, 16));
        assert(reader@ =~= s.skip(16));
        let stance = reader.read_f64()?;
        assert(s.skip(16).take(8) =~= s.subrange(16, 24));
        assert(reader@ =~= s.skip(24));
        let z = reader.read_f64()?;
        assert(s.skip(24).take(8) =~= s.subrange(24, 32));
        assert(reader@ =~= s.skip(32));
        let on_ground = reader.read_bool()?;
        assert(reader@ =~= s.skip(33));
        Ok(PlayerPositionPacket { x, y, stance, z, on_ground })
    }
}

/// The player turned; angles are `f32` bit patterns.
#[derive(Debug, Clone, Copy, PartialEq, Eq, Structural)]
pub struct PlayerLookPacket {
    pub yaw: u32,
    pub pitch: u32,
    pub on_ground: bool,
}

impl PlayerLookPacket {
    /// The bytes of the packet's fields, after its id.
    pub open spec fn wire_len() -> int {
        9
    }

    /// The packet that the first bytes of `s` hold.
    pub open spec fn parsed(s: Seq<u8>) -> PlayerLookPacket {
        PlayerLookPacket {
            yaw: be4_value(s.subrange(0, 4)) as u32,
            pitch: be4_value(s.subrange(4, 8)) as u32,
            on_ground: s[8] != 0,
        }
    }

    /// Reads the packet's fields (its id already read). Fails, consuming
    /// nothing, when the bytes end early.
    pub fn read(reader: &mut PacketReader) -> (r: Result<PlayerLookPacket, ReadError>)
        ensures
            fixed_read(
                r,
                *old(reader),
                *final(reader),
                Self::wire_len(),
                Self::parsed(old(reader)@),
            ),
    {
        if reader.remaining() < 9 {
            return Err(ReadError::UnexpectedEof);
        }
        let ghost s = reader@;
        let yaw = reader.read_f32()?;
        assert(s.skip(0).take(4) =~= s.subrange(0, 4));
        assert(reader@ =~= s.skip(4));
        let pitch = reader.read_f32()?;
        assert(s.skip(4).take(4) =~= s.subrange(4, 8));
        assert(reader@ =~= s.skip(8));
        let on_ground = reader.read_bool()?;
        assert(reader@ =~= s.skip(9));
        Ok(PlayerLookPacket { yaw, pitch, on_ground })
    }
}

/// The player moved and turned; coordinates are `f64` and angles `f32` bit patterns.
#[derive(Debug, Clone, Copy, PartialEq, Eq, Structural)]
pub struct PlayerPosLookPacket {
    pub x: u64,
    pub y: u64,
    pub stance: u64,
    pub z: u64,
    pub yaw: u32,
    pub pitch: u32,
    pub on_ground: bool,
}

impl PlayerPosLookPacket {
    /// The bytes of the packet's fields, after its id.
    pub open spec fn wire_len() -> int {
        41
    }

    /// The packet that the first bytes of `s` hold.
    pub open spec fn parsed(s: Seq<u8>) -> PlayerPosLookPacket {
        PlayerPosLookPacket {
            x: be8_value(s.subrange(0, 8)) as u64,
            y: be8_value(s.subrange(8, 16)) as u64,
            stance: be8_value(s.subrange(16, 24)) as u64,
            z: be8_value(s.subrange(24, 32)) as u64,
            yaw: be4_value(s.subrange(32, 36)) as u32,
            pitch: be4_value(s.subrange(36, 40)) as u32,
            on_ground: s[40] != 0,
        }
    }

    /// Reads the packet's fields (its id already read). Fails, consuming
    /// nothing, when the bytes end early.
    pub fn read(reader: &mut PacketReader) -> (r: Result<PlayerPosLookPacket, ReadError>)
        ensures
            fixed_read(
                r,
                *old(reader),
                *final(reader),
                Self::wire_len(),
                Self::parsed(old(reader)@),
            ),
    {
        if reader.remaining() < 41 {
            return Err(ReadError::UnexpectedEof);
        }
        let ghost s = reader@;
        let x = reader.read_f64()?;
        assert(s.skip(0).take(8) =~= s.subrange(0, 8));
        assert(reader@ =~= s.skip(8));
        let y = reader.read_f64()?;
        assert(s.skip(8).take(8) =~= s.subrange(8, 16));
        assert(reader@ =~= s.skip(16));
        let stance = reader.read_f64()?;
        assert(s.skip(16).take(8) =~= s.subrange(16, 24));
        assert(reader@ =~= s.skip(24));
        let z = reader.read_f64()?;
        assert(s.skip(24).take(8) =~= s.subrange(24, 32));
        assert(reader@ =~= s.skip(32));
        let yaw = reader.read_f32()?;
        assert(s.skip(32).take(4) =~= s.subrange(32, 36));
        assert(reader@ =~= s.skip(36));
        let pitch = reader.read_f32()?;
        assert(s.skip(36).take(4) =~= s.subrange(36, 40));
        assert(reader@ =~= s.skip(40));
        let on_ground = reader.read_bool()?;
        assert(reader@ =~= s.skip(41));
        Ok(PlayerPosLookPacket { x, y, stance, z, yaw, pitch, on_ground })
    }
}

/// The player swung an arm.
#[derive(Debug, Clone, Copy, PartialEq, Eq, Structural)]
pub struct ArmAnimationPacket {
    pub entity_id: i32,
    pub animate: u8,
}

impl ArmAnimationPacket {
    /// The bytes of the packet's fields, after its id.
    pub open spec fn wire_len() -> int {
        5
    }

    /// The packet that the first bytes of `s` hold.
    pub open spec fn parsed(s: Seq<u8>) -> ArmAnimationPacket {
        ArmAnimationPacket {
            entity_id: i32_of(s.subrange(0, 4)) as i32,
            animate: s[4],
        }
    }

    /// Reads the packet's fields (its id already read). Fails, consuming
    /// nothing, when the bytes end early.
    pub fn read(reader: &mut PacketReader) -> (r: Result<ArmAnimationPacket, ReadError>)
        ensures
            fixed_read(
                r,
                *old(reader),
                *final(reader),
                Self::wire_len(),
                Self::parsed(old(reader)@),
            ),
    {
        if reader.remaining() < 5 {
            return Err(ReadError::UnexpectedEof);
        }
        let ghost s = reader@;
        let entity_id = reader.read_i32()?;
        assert(s.skip(0).take(4) =~= s.subrange(0, 4));
        assert(reader@ =~= s.skip(4));
        let animate = reader.read_u8()?;
        assert(reader@ =~= s.skip(5));
        Ok(ArmAnimationPacket { entity_id, animate })
    }
}

/// The player closed a window.
#[derive(Debug, Clone, Copy, PartialEq, Eq, Structural)]
pub struct CloseWindowPacket {
    pub window_id: u8,
}

impl CloseWindowPacket {
    /// The bytes of the packet's fields, after its id.
    pub open spec fn wire_len() -> int {
        1
    }

    /// The packet that the first bytes of `s` hold.
    pub open spec fn parsed(s: Seq<u8>) -> CloseWindowPacket {
        CloseWindowPacket {
            window_id: s[0],
        }
    }

    /// Reads the packet's fields (its id already read). Fails, consuming
    /// nothing, when the bytes end early.
    pub fn read(reader: &mut PacketReader) -> (r: Result<CloseWindowPacket, ReadError>)
        ensures
            fixed_read(
                r,
                *old(reader),
                *final(reader),
                Self::wire_len(),
                Self::parsed(old(reader)@),
            ),
    {
        if reader.remaining() < 1 {
            return Err(ReadError::UnexpectedEof);
        }
        let ghost s = reader@;
        let window_id = reader.read_u8()?;
        assert(reader@ =~= s.skip(1));
        Ok(CloseWindowPacket { window_id })
    }
}

/// The player dug at a block.
#[derive(Debug, Clone, Copy, PartialEq, Eq, Structural)]
pub struct PlayerDiggingPacket {
    pub status: u8,
    pub x: i32,
    pub y: u8,
    pub z: i32,
    pub face: u8,
}

impl PlayerDiggingPacket {
    /// The bytes of the packet's fields, after its id.
    pub open spec fn wire_len() -> int {
        11
    }

    /// The packet that the first bytes of `s` hold.
    pub open spec fn parsed(s: Seq<u8>) -> PlayerDiggingPacket {
        PlayerDiggingPacket {
            status: s[0],
            x: i32_of(s.subrange(1, 5)) as i32,
            y: s[5],
            z: i32_of(s.subrange(6, 10)) as i32,
            face: s[10],
        }
    }

    /// Reads the packet's fields (its id already read). Fails, consuming
    /// nothing, when the bytes end early.
    pub fn read(reader: &mut PacketReader) -> (r: Result<PlayerDiggingPacket, ReadError>)
        ensures
            fixed_read(
                r,
                *old(reader),
                *final(reader),
                Self::wire_len(),
                Self::parsed(old(reader)@),
            ),
    {
        if reader.remaining() < 11 {
            return Err(ReadError::UnexpectedEof);
        }
        let ghost s = reader@;
        let status = reader.read_u8()?;
        assert(reader@ =~= s.skip(1));
        let x = reader.read_i32()?;
        assert(s.skip(1).take(4) =~= s.subrange(1, 5));
        assert(reader@ =~= s.skip(5));
        let y = reader.read_u8()?;
        assert(reader@ =~= s.skip(6));
        let z = reader.read_i32()?;
        assert(s.skip(6).take(4) =~= s.subrange(6, 10));
        assert(reader@ =~= s.skip(10));
        let face = reader.read_u8()?;
        assert(reader@ =~= s.skip(11));
        Ok(PlayerDiggingPacket { status, x, y, z, face })
    }
}

/// The player crouched, stood up, or did something else.
#[derive(Debug, Clone, Copy, PartialEq, Eq, Structural)]
pub struct EntityActionPacket {
    pub entity_id: i32,
    pub action: u8,
}

impl EntityActionPacket {
    /// The bytes of the packet's fields, after its id.
    pub open spec fn wire_len() -> int {
        5
    }

    /// The packet that the first bytes of `s` hold.
    pub open spec fn parsed(s: Seq<u8>) -> EntityActionPacket {
        EntityActionPacket {
            entity_id: i32_of(s.subrange(0, 4)) as i32,
            action: s[4],
        }
    }

    /// Reads the packet's fields (its id already read). Fails, consuming
    /// nothing, when the bytes end early.
    pub fn read(reader: &mut PacketReader) -> (r: Result<EntityActionPacket, ReadError>)
        ensures
            fixed_read(
                r,
                *old(reader),
                *final(reader),
                Self::wire_len(),
                Self::parsed(old(reader)@),
            ),
    {
        if reader.remaining() < 5 {
            return Err(ReadError::UnexpectedEof);
        }
        let ghost s = reader@;
        let entity_id = reader.read_i32()?;
        assert(s.skip(0).take(4) =~= s.subrange(0, 4));
        assert(reader@ =~= s.skip(4));
        let action = reader.read_u8()?;
        assert(reader@ =~= s.skip(5));
        Ok(EntityActionPacket { entity_id, action })
    }
}

/// The player used or hit another entity.
#[derive(Debug, Clone, Copy, PartialEq, Eq, Structural)]
pub struct UseEntityPacket {
    pub user_id: i32,
    pub target_id: i32,
    pub left_click: bool,
}

impl UseEntityPacket {
    /// The bytes of the packet's fields, after its id.
    pub open spec fn wire_len() -> int {
        9
    }

    /// The packet that the first bytes of `s` hold.
    pub open spec fn parsed(s: Seq<u8>) -> UseEntityPacket {
        UseEntityPacket {
            user_id: i32_of(s.subrange(0, 4)) as i32,
            target_id: i32_of(s.subrange(4, 8)) as i32,
            left_click: s[8] != 0,
        }
    }

    /// Reads the packet's fields (its id already read). Fails, consuming
    /// nothing, when the bytes end early.
    pub fn read(reader: &mut PacketReader) -> (r: Result<UseEntityPacket, ReadError>)
        ensures
            fixed_read(
                r,
                *old(reader),
                *final(reader),
                Self::wire_len(),
                Self::parsed(old(reader)@),
            ),
    {
        if reader.remaining() < 9 {
            return Err(ReadError::UnexpectedEof);
        }
        let ghost s = reader@;
        let user_id = reader.read_i32()?;
        assert(s.skip(0).take(4) =~= s.subrange(0, 4));
        assert(reader@ =~= s.skip(4));
        let target_id = reader.read_i32()?;
        assert(s.skip(4).take(4) =~= s.subrange(4, 8));
        assert(reader@ =~= s.skip(8));
        let left_click = reader.read_bool()?;
        assert(reader@ =~= s.skip(9));
        Ok(UseEntityPacket { user_id, target_id, left_click })
    }
}

/// The player selected another hotbar slot.
#[derive(Debug, Clone, Copy, PartialEq, Eq, Structural)]
pub struct HeldItemChangePacket {
    pub slot: i16,
}

impl HeldItemChangePacket {
    /// The bytes of the packet's fields, after its id.
    pub open spec fn wire_len() -> int {
        2
    }

    /// The packet that the first bytes of `s` hold.
    pub open spec fn parsed(s: Seq<u8>) -> HeldItemChangePacket {
        HeldItemChangePacket {
            slot: i16_of(s.subrange(0, 2)) as i16,
        }
    }

    /// Reads the packet's fields (its id already read). Fails, consuming
    /// nothing, when the bytes end early.
    pub fn read(reader: &mut PacketReader) -> (r: Result<HeldItemChangePacket, ReadError>)
        ensures
            fixed_read(
                r,
                *old(reader),
                *final(reader),
                Self::wire_len(),
                Self::parsed(old(reader)@),
            ),
    {
        if reader.remaining() < 2 {
            return Err(ReadError::UnexpectedEof);
        }
        let ghost s = reader@;
        let slot = reader.read_i16()?;
        assert(s.skip(0).take(2) =~= s.subrange(0, 2));
        assert(reader@ =~= s.skip(2));
        Ok(HeldItemChangePacket { slot })
    }
}

/// The player answered an inventory transaction.
#[derive(Debug, Clone, Copy, PartialEq, Eq, Structural)]
pub struct TransactionPacket {
    pub window_id: u8,
    pub action: i16,
    pub accepted: bool,
}

impl TransactionPacket {
    /// The bytes of the packet's fields, after its id.
    pub open spec fn wire_len() -> int {
        4
    }

    /// The packet that the first bytes of `s` hold.
    pub open spec fn parsed(s: Seq<u8>) -> TransactionPacket {
        TransactionPacket {
            window_id: s[0],
            action: i16_of(s.subrange(1, 3)) as i16,
            accepted: s[3] != 0,
        }
    }

    /// Reads the packet's fields (its id already read). Fails, consuming
    /// nothing, when the bytes end early.
    pub fn read(reader: &mut PacketReader) -> (r: Result<TransactionPacket, ReadError>)
        ensures
            fixed_read(
                r,
                *old(reader),
                *final(reader),
                Self::wire_len(),
                Self::parsed(old(reader)@),
            ),
    {
        if reader.remaining() < 4 {
            return Err(ReadError::UnexpectedEof);
        }
        let ghost s = reader@;
        let window_id = reader.read_u8()?;
        assert(reader@ =~= s.skip(1));
        let action = reader.read_i16()?;
        assert(s.skip(1).take(2) =~= s.subrange(1, 3));
        assert(reader@ =~= s.skip(3));
        let accepted = reader.read_bool()?;
        assert(reader@ =~= s.skip(4));
        Ok(TransactionPacket { window_id, action, accepted })
    }
}

/// An item in a slot: its id, how many, and its damage value.
#[derive(Debug, Clone, Copy, PartialEq, Eq, Structural)]
pub struct ItemStack {
    pub id: i16,
    pub count: u8,
    pub damage: i16,
}

/// The player placed a block or used an item.
#[derive(Debug, Clone, Copy, PartialEq, Eq, Structural)]
pub struct BlockPlacementPacket {
    pub x: i32,
    pub y: u8,
    pub z: i32,
    pub direction: u8,
    pub item: Option<ItemStack>,
}

impl BlockPlacementPacket {
    /// The item id field: a negative id means no item follows.
    pub open spec fn item_id(s: Seq<u8>) -> int {
        i16_of(s.subrange(10, 12))
    }

    /// The bytes of the packet's fields, after its id.
    pub open spec fn wire_len(s: Seq<u8>) -> int {
        if s.len() >= 12 && Self::item_id(s) >= 0 {
            15
        } else {
            12
        }
    }

    /// The packet that the first bytes of `s` hold.
    pub open spec fn parsed(s: Seq<u8>) -> BlockPlacementPacket {
        BlockPlacementPacket {
            x: i32_of(s.subrange(0, 4)) as i32,
            y: s[4],
            z: i32_of(s.subrange(5, 9)) as i32,
            direction: s[9],
            item: if Self::item_id(s) >= 0 {
                Some(
                    ItemStack {
                        id: Self::item_id(s) as i16,
                        count: s[12],
                        damage: i16_of(s.subrange(13, 15)) as i16,
                    },
                )
            } else {
                None
            },
        }
    }

    /// Reads the packet's fields (its id already read): x, y, z, direction,
    /// then an item id, and a count and damage only when the id is not
    /// negative. Fails, consuming nothing, when the bytes end early.
    pub fn read(reader: &mut PacketReader) -> (r: Result<BlockPlacementPacket, ReadError>)
        ensures
            fixed_read(
                r,
                *old(reader),
                *final(reader),
                Self::wire_len(old(reader)@),
                Self::parsed(old(reader)@),
            ),
    {
        if reader.remaining() < 12 {
            return Err(ReadError::UnexpectedEof);
        }
        let saved = *reader;
        let ghost s = reader@;
        let x = reader.read_i32()?;
        assert(s.skip(0).take(4) =~= s.subrange(0, 4));
        assert(reader@ =~= s.skip(4));
        let y = reader.read_u8()?;
        assert(reader@ =~= s.skip(5));
        let z = reader.read_i32()?;
        assert(s.skip(5).take(4) =~= s.subrange(5, 9));
        assert(reader@ =~= s.skip(9));
        let direction = reader.read_u8()?;
        assert(reader@ =~= s.skip(10));
        let id = reader.read_i16()?;
        assert(s.skip(10).take(2) =~= s.subrange(10, 12));
        assert(reader@ =~= s.skip(12));
        let item = if id >= 0 {
            if reader.remaining() < 3 {
                *reader = saved;
                return Err(ReadError::UnexpectedEof);
            }
            let count = reader.read_u8()?;
            assert(reader@ =~= s.skip(13));
            let damage = reader.read_i16()?;
            assert(s.skip(13).take(2) =~= s.subrange(13, 15));
            assert(reader@ =~= s.skip(15));
            Some(ItemStack { id, count, damage })
        } else {
            None
        };
        Ok(BlockPlacementPacket { x, y, z, direction, item })
    }
}

/// The player clicked a slot of a window.
#[derive(Debug, Clone, Copy, PartialEq, Eq, Structural)]
pub struct WindowClickPacket {
    pub window_id: u8,
    pub slot: i16,
    pub rightclick: u8,
    pub action: i16,
    pub shift: bool,
    pub item: Option<ItemStack>,
}

impl WindowClickPacket {
    /// The item id field: -1 means no item follows.
    pub open spec fn item_id(s: Seq<u8>) -> int {
        i16_of(s.subrange(7, 9))
    }

    /// The bytes of the packet's fields, after its id.
    pub open spec fn wire_len(s: Seq<u8>) -> int {
        if s.len() >= 9 && Self::item_id(s) != -1 {
            12
        } else {
            9
        }
    }

    /// The packet that the first bytes of `s` hold.
    pub open spec fn parsed(s: Seq<u8>) -> WindowClickPacket {
        WindowClickPacket {
            window_id: s[0],
            slot: i16_of(s.subrange(1, 3)) as i16,
            rightclick: s[3],
            action: i16_of(s.subrange(4, 6)) as i16,
            shift: s[6] != 0,
            item: if Self::item_id(s) != -1 {
                Some(
                    ItemStack {
                        id: Self::item_id(s) as i16,
                        count: s[9],
                        damage: i16_of(s.subrange(10, 12)) as i16,
                    },
                )
            } else {
                None
            },
        }
    }

    /// Reads the packet's fields (its id already read): window, slot, click,
    /// action, shift, then an item id, and a count and damage unless the id
    /// is -1. Fails, consuming nothing, when the bytes end early.
    pub fn read(reader: &mut PacketReader) -> (r: Result<WindowClickPacket, ReadError>)
        ensures
            fixed_read(
                r,
                *old(reader),
                *final(reader),
                Self::wire_len(old(reader)@),
                Self::parsed(old(reader)@),
            ),
    {
        if reader.remaining() < 9 {
            return Err(ReadError::UnexpectedEof);
        }
        let saved = *reader;
        let ghost s = reader@;
        let window_id = reader.read_u8()?;
        assert(reader@ =~= s.skip(1));
        let slot = reader.read_i16()?;
        assert(s.skip(1).take(2) =~= s.subrange(1, 3));
        assert(reader@ =~= s.skip(3));
        let click = reader.read_u8()?;
        assert(reader@ =~= s.skip(4));
        let act = reader.read_i16()?;
        assert(s.skip(4).take(2) =~= s.subrange(4, 6));
        assert(reader@ =~= s.skip(6));
        let shift = reader.read_bool()?;
        assert(reader@ =~= s.skip(7));
        let id = reader.read_i16()?;
        assert(s.skip(7).take(2) =~= s.subrange(7, 9));
        assert(reader@ =~= s.skip(9));
        let item = if id != -1 {
            if reader.remaining() < 3 {
                *reader = saved;
                return Err(ReadError::UnexpectedEof);
            }
            let count = reader.read_u8()?;
            assert(reader@ =~= s.skip(10));
            let damage = reader.read_i16()?;
            assert(s.skip(10).take(2) =~= s.subrange(10, 12));
            assert(reader@ =~= s.skip(12));
            Some(ItemStack { id, count, damage })
        } else {
            None
        };
        Ok(WindowClickPacket { window_id, slot, rightclick: click, action: act, shift, item })
    }
}

/// Whether a string read behaved as `read_string` does on the same bytes.
pub open spec fn string_field_read<'a>(
    r: Result<Seq<char>, ReadError>,
    before: PacketReader<'a>,
    after: PacketReader<'a>,
) -> bool {
    match string_read(before@) {
        Ok(t) => r == Ok::<Seq<char>, ReadError>(t) && after.advanced_from(
            before,
            string_extent(before@),
        ),
        Err(e) => r == Err::<Seq<char>, ReadError>(e) && after.left_after(
            before,
            string_error_extent(e, before@),
        ),
    }
}

/// The player said something, or issued a command (a message that starts
/// with '/').
#[derive(Debug)]
pub struct ChatMessagePacket {
    pub message: String,
}

impl ChatMessagePacket {
    /// Reads the message (the packet id already read). Fails, consuming
    /// nothing, when the bytes end early, and having consumed the message
    /// when it is not valid UTF-16. A negative length is not accepted.
    pub fn read(reader: &mut PacketReader) -> (r: Result<ChatMessagePacket, ReadError>)
        requires
            string_length_ok(old(reader)@, 0),
        ensures
            string_field_read(
                match r {
                    Ok(p) => Ok(p.message@),
                    Err(e) => Err(e),
                },
                *old(reader),
                *final(reader),
            ),
    {
        let message = reader.read_string()?;
        Ok(ChatMessagePacket { message })
    }
}

/// The client is leaving, and why.
#[derive(Debug)]
pub struct DisconnectPacket {
    pub reason: String,
}

impl DisconnectPacket {
    /// Reads the reason (the packet id already read). Fails, consuming
    /// nothing, when the bytes end early, and having consumed the reason
    /// when it is not valid UTF-16. A negative length is not accepted.
    pub fn read(reader: &mut PacketReader) -> (r: Result<DisconnectPacket, ReadError>)
        requires
            string_length_ok(old(reader)@, 0),
        ensures
            string_field_read(
                match r {
                    Ok(p) => Ok(p.reason@),
                    Err(e) => Err(e),
                },
                *old(reader),
                *final(reader),
            ),
    {
        let reason = reader.read_string()?;
        Ok(DisconnectPacket { reason })
    }
}

/// Whether the connection goes on after a packet.
#[derive(Debug, Clone, Copy, PartialEq, Eq, Structural)]
pub enum ConnectionAction {
    Continue,
    Disconnect,
}

/// The player a connection serves, as packet handling sees it.
#[derive(Debug)]
pub struct PlayerState {
    pub id: i32,
    pub username: String,
    pub position: Position,
}

/// What handling a packet asks of the connection besides going on or
/// stopping.
#[derive(Debug)]
pub enum Effect {
    /// Nothing.
    Nothing,
    /// Store this as the player's position.
    SetPosition(Position),
    /// Store this as the player's position and show every other player the
    /// player there.
    UpdatePosition(Position),
    /// The player issued this command (the message without its '/').
    Command(String),
    /// Send this chat line to every player.
    Chat(String),
    /// Send this packet to every player but the one with id `except`.
    BroadcastExcept { except: i32, packet: ClientboundPacket },
    /// The client left, giving this reason.
    Disconnected(String),
}

/// An effect with its strings as characters.
pub enum EffectView {
    Nothing,
    SetPosition(Position),
    UpdatePosition(Position),
    Command(Seq<char>),
    Chat(Seq<char>),
    BroadcastExcept { except: i32, packet: ClientboundPacket },
    Disconnected(Seq<char>),
}

impl View for Effect {
    type V = EffectView;

    open spec fn view(&self) -> EffectView {
        match self {
            Effect::Nothing => EffectView::Nothing,
            Effect::SetPosition(p) => EffectView::SetPosition(*p),
            Effect::UpdatePosition(p) => EffectView::UpdatePosition(*p),
            Effect::Command(c) => EffectView::Command(c@),
            Effect::Chat(c) => EffectView::Chat(c@),
            Effect::BroadcastExcept { except, packet } => EffectView::BroadcastExcept {
                except: *except,
                packet: *packet,
            },
            Effect::Disconnected(r) => EffectView::Disconnected(r@),
        }
    }
}

/// The chat line everyone sees when `user` says `message`.
pub open spec fn chat_line(user: Seq<char>, message: Seq<char>) -> Seq<char> {
    seq!['<'] + user + seq!['>', ' '] + message
}

/// What a chat message does: a message that starts with '/' is a command,
/// anything else is said to everyone.
pub open spec fn chat_effect(user: Seq<char>, message: Seq<char>) -> EffectView {
    if message.len() > 0 && message[0] == '/' {
        EffectView::Command(message.skip(1))
    } else {
        EffectView::Chat(chat_line(user, message))
    }
}

/// What a crouch action (1) or a stand-up action (2) shows the other
/// players; other actions show nothing.
pub open spec fn action_effect(player_id: i32, action: u8) -> EffectView {
    if action == 1 || action == 2 {
        EffectView::BroadcastExcept {
            except: player_id,
            packet: ClientboundPacket::PlayerCrouch { entity_id: player_id, sneaking: action == 1 },
        }
    } else {
        EffectView::Nothing
    }
}

impl KeepAlivePacket {
    /// What handling this packet asks.
    pub open spec fn outcome(
        self,
        player_id: i32,
        username: Seq<char>,
        position: Position,
    ) -> (ConnectionAction, EffectView) {
        (ConnectionAction::Continue, EffectView::Nothing)
    }

    /// Nothing to do.
    pub fn handle(self, player: &PlayerState) -> (r: (ConnectionAction, Effect))
        ensures
            (r.0, r.1@) == self.outcome(player.id, player.username@, player.position),
    {
        (ConnectionAction::Continue, Effect::Nothing)
    }
}

impl PlayerFlyingPacket {
    /// What handling this packet asks.
    pub open spec fn outcome(
        self,
        player_id: i32,
        username: Seq<char>,
        position: Position,
    ) -> (ConnectionAction, EffectView) {
        (
            ConnectionAction::Continue,
            EffectView::SetPosition(Position { on_ground: self.on_ground, ..position }),
        )
    }

    /// The player's position with the new on-ground flag.
    pub fn handle(self, player: &PlayerState) -> (r: (ConnectionAction, Effect))
        ensures
            (r.0, r.1@) == self.outcome(player.id, player.username@, player.position),
    {
        (
            ConnectionAction::Continue,
            Effect::SetPosition(player.position.with_ground(self.on_ground)),
        )
    }
}

impl PlayerPositionPacket {
    /// What handling this packet asks.
    pub open spec fn outcome(
        self,
        player_id: i32,
        username: Seq<char>,
        position: Position,
    ) -> (ConnectionAction, EffectView) {
        (
            ConnectionAction::Continue,
            EffectView::UpdatePosition(
                Position { x: self.x, y: self.y, z: self.z, on_ground: self.on_ground, ..position },
            ),
        )
    }

    /// The player moves to the new coordinates, keeping the look.
    pub fn handle(self, player: &PlayerState) -> (r: (ConnectionAction, Effect))
        ensures
            (r.0, r.1@) == self.outcome(player.id, player.username@, player.position),
    {
        let position = player.position.with_ground(self.on_ground);
        (
            ConnectionAction::Continue,
            Effect::UpdatePosition(Position { x: self.x, y: self.y, z: self.z, ..position }),
        )
    }
}

impl PlayerLookPacket {
    /// What handling this packet asks.
    pub open spec fn outcome(
        self,
        player_id: i32,
        username: Seq<char>,
        position: Position,
    ) -> (ConnectionAction, EffectView) {
        (
            ConnectionAction::Continue,
            EffectView::UpdatePosition(
                Position {
                    yaw: self.yaw,
                    pitch: self.pitch,
                    on_ground: self.on_ground,
                    ..position
                },
            ),
        )
    }

    /// The player turns, staying where it is.
    pub fn handle(self, player: &PlayerState) -> (r: (ConnectionAction, Effect))
        ensures
            (r.0, r.1@) == self.outcome(player.id, player.username@, player.position),
    {
        let position = player.position;
        (
            ConnectionAction::Continue,
            Effect::UpdatePosition(
                position.with_look(self.yaw, self.pitch).with_ground(self.on_ground),
            ),
        )
    }
}

impl PlayerPosLookPacket {
    /// What handling this packet asks.
    pub open spec fn outcome(
        self,
        player_id: i32,
        username: Seq<char>,
        position: Position,
    ) -> (ConnectionAction, EffectView) {
        (
            ConnectionAction::Continue,
            EffectView::UpdatePosition(
                Position {
                    x: self.x,
                    y: self.y,
                    z: self.z,
                    yaw: self.yaw,
                    pitch: self.pitch,
                    on_ground: self.on_ground,
                },
            ),
        )
    }

    /// The player moves and turns.
    pub fn handle(self, player: &PlayerState) -> (r: (ConnectionAction, Effect))
        ensures
            (r.0, r.1@) == self.outcome(player.id, player.username@, player.position),
    {
        (
            ConnectionAction::Continue,
            Effect::UpdatePosition(
                Position {
                    x: self.x,
                    y: self.y,
                    z: self.z,
                    yaw: self.yaw,
                    pitch: self.pitch,
                    on_ground: self.on_ground,
                },
            ),
        )
    }
}

impl ChatMessagePacket {
    /// What handling a packet with this message asks.
    pub open spec fn outcome(
        message: Seq<char>,
        player_id: i32,
        username: Seq<char>,
        position: Position,
    ) -> (ConnectionAction, EffectView) {
        (ConnectionAction::Continue, chat_effect(username, message))
    }

    /// A command when the message starts with '/', else the line
    /// "<username> message" for everyone.
    pub fn handle(self, player: &PlayerState) -> (r: (ConnectionAction, Effect))
        ensures
            (r.0, r.1@) == Self::outcome(
                self.message@,
                player.id,
                player.username@,
                player.position,
            ),
    {
        let text = self.message.as_str();
        let n = text.unicode_len();
        if n > 0 && text.get_char(0) == '/' {
            let command = text.substring_char(1, n).to_string();
            assert(text@.subrange(1, n as int) =~= text@.skip(1));
            return (ConnectionAction::Continue, Effect::Command(command));
        }
        let mut line = "<".to_string();
        line.append(player.username.as_str());
        line.append("> ");
        line.append(text);
        proof {
            reveal_strlit("<");
            reveal_strlit("> ");
            assert(line@ =~= chat_line(player.username@, self.message@));
        }
        (ConnectionAction::Continue, Effect::Chat(line))
    }
}

impl ArmAnimationPacket {
    /// What handling this packet asks.
    pub open spec fn outcome(
        self,
        player_id: i32,
        username: Seq<char>,
        position: Position,
    ) -> (ConnectionAction, EffectView) {
        (ConnectionAction::Continue, EffectView::Nothing)
    }

    /// Nothing to do.
    pub fn handle(self, player: &PlayerState) -> (r: (ConnectionAction, Effect))
        ensures
            (r.0, r.1@) == self.outcome(player.id, player.username@, player.position),
    {
        (ConnectionAction::Continue, Effect::Nothing)
    }
}

impl CloseWindowPacket {
    /// What handling this packet asks.
    pub open spec fn outcome(
        self,
        player_id: i32,
        username: Seq<char>,
        position: Position,
    ) -> (ConnectionAction, EffectView) {
        (ConnectionAction::Continue, EffectView::Nothing)
    }

    /// Nothing to do.
    pub fn handle(self, player: &PlayerState) -> (r: (ConnectionAction, Effect))
        ensures
            (r.0, r.1@) == self.outcome(player.id, player.username@, player.position),
    {
        (ConnectionAction::Continue, Effect::Nothing)
    }
}

impl PlayerDiggingPacket {
    /// What handling this packet asks.
    pub open spec fn outcome(
        self,
        player_id: i32,
        username: Seq<char>,
        position: Position,
    ) -> (ConnectionAction, EffectView) {
        (ConnectionAction::Continue, EffectView::Nothing)
    }

    /// Nothing to do.
    pub fn handle(self, player: &PlayerState) -> (r: (ConnectionAction, Effect))
        ensures
            (r.0, r.1@) == self.outcome(player.id, player.username@, player.position),
    {
        (ConnectionAction::Continue, Effect::Nothing)
    }
}

impl BlockPlacementPacket {
    /// What handling this packet asks.
    pub open spec fn outcome(
        self,
        player_id: i32,
        username: Seq<char>,
        position: Position,
    ) -> (ConnectionAction, EffectView) {
        (ConnectionAction::Continue, EffectView::Nothing)
    }

    /// Nothing to do.
    pub fn handle(self, player: &PlayerState) -> (r: (ConnectionAction, Effect))
        ensures
            (r.0, r.1@) == self.outcome(player.id, player.username@, player.position),
    {
        (ConnectionAction::Continue, Effect::Nothing)
    }
}

impl EntityActionPacket {
    /// What handling this packet asks.
    pub open spec fn outcome(
        self,
        player_id: i32,
        username: Seq<char>,
        position: Position,
    ) -> (ConnectionAction, EffectView) {
        (ConnectionAction::Continue, action_effect(player_id, self.action))
    }

    /// Crouching (1) and standing up (2) are shown to the other players.
    pub fn handle(self, player: &PlayerState) -> (r: (ConnectionAction, Effect))
        ensures
            (r.0, r.1@) == self.outcome(player.id, player.username@, player.position),
    {
        let effect = match self.action {
            1 => Effect::BroadcastExcept {
                except: player.id,
                packet: ClientboundPacket::PlayerCrouch { entity_id: player.id, sneaking: true },
            },
            2 => Effect::BroadcastExcept {
                except: player.id,
                packet: ClientboundPacket::PlayerCrouch { entity_id: player.id, sneaking: false },
            },
            _ => Effect::Nothing,
        };
        (ConnectionAction::Continue, effect)
    }
}

impl UseEntityPacket {
    /// What handling this packet asks.
    pub open spec fn outcome(
        self,
        player_id: i32,
        username: Seq<char>,
        position: Position,
    ) -> (ConnectionAction, EffectView) {
        (ConnectionAction::Continue, EffectView::Nothing)
    }

    /// Nothing to do.
    pub fn handle(self, player: &PlayerState) -> (r: (ConnectionAction, Effect))
        ensures
            (r.0, r.1@) == self.outcome(player.id, player.username@, player.position),
    {
        (ConnectionAction::Continue, Effect::Nothing)
    }
}

impl HeldItemChangePacket {
    /// What handling this packet asks.
    pub open spec fn outcome(
        self,
        player_id: i32,
        username: Seq<char>,
        position: Position,
    ) -> (ConnectionAction, EffectView) {
        (ConnectionAction::Continue, EffectView::Nothing)
    }

    /// Nothing to do.
    pub fn handle(self, player: &PlayerState) -> (r: (ConnectionAction, Effect))
        ensures
            (r.0, r.1@) == self.outcome(player.id, player.username@, player.position),
    {
        (ConnectionAction::Continue, Effect::Nothing)
    }
}

impl WindowClickPacket {
    /// What handling this packet asks.
    pub open spec fn outcome(
        self,
        player_id: i32,
        username: Seq<char>,
        position: Position,
    ) -> (ConnectionAction, EffectView) {
        (ConnectionAction::Continue, EffectView::Nothing)
    }

    /// Nothing to do.
    pub fn handle(self, player: &PlayerState) -> (r: (ConnectionAction, Effect))
        ensures
            (r.0, r.1@) == self.outcome(player.id, player.username@, player.position),
    {
        (ConnectionAction::Continue, Effect::Nothing)
    }
}

impl TransactionPacket {
    /// What handling this packet asks.
    pub open spec fn outcome(
        self,
        player_id: i32,
        username: Seq<char>,
        position: Position,
    ) -> (ConnectionAction, EffectView) {
        (ConnectionAction::Continue, EffectView::Nothing)
    }

    /// Nothing to do.
    pub fn handle(self, player: &PlayerState) -> (r: (ConnectionAction, Effect))
        ensures
            (r.0, r.1@) == self.outcome(player.id, player.username@, player.position),
    {
        (ConnectionAction::Continue, Effect::Nothing)
    }
}

impl DisconnectPacket {
    /// What handling a packet with this reason asks.
    pub open spec fn outcome(
        reason: Seq<char>,
        player_id: i32,
        username: Seq<char>,
        position: Position,
    ) -> (ConnectionAction, EffectView) {
        (ConnectionAction::Disconnect, EffectView::Disconnected(reason))
    }

    /// The connection ends.
    pub fn handle(self, player: &PlayerState) -> (r: (ConnectionAction, Effect))
        ensures
            (r.0, r.1@) == Self::outcome(
                self.reason@,
                player.id,
                player.username@,
                player.position,
            ),
    {
        (ConnectionAction::Disconnect, Effect::Disconnected(self.reason))
    }
}

/// The kinds of packet a logged-in client may send.
#[derive(Debug, Clone, Copy, PartialEq, Eq, Structural)]
pub enum PacketKind {
    KeepAlive,
    PlayerFlying,
    PlayerPosition,
    PlayerLook,
    PlayerPosLook,
    ChatMessage,
    ArmAnimation,
    CloseWindow,
    PlayerDigging,
    BlockPlacement,
    EntityAction,
    UseEntity,
    HeldItemChange,
    WindowClick,
    Transaction,
    Disconnect,
}

impl PacketKind {
    /// The id byte that starts a packet of this kind.
    pub open spec fn spec_id(self) -> u8 {
        match self {
            PacketKind::KeepAlive => 0x00,
            PacketKind::PlayerFlying => 0x0A,
            PacketKind::PlayerPosition => 0x0B,
            PacketKind::PlayerLook => 0x0C,
            PacketKind::PlayerPosLook => 0x0D,
            PacketKind::ChatMessage => 0x03,
            PacketKind::ArmAnimation => 0x12,
            PacketKind::CloseWindow => 0x65,
            PacketKind::PlayerDigging => 0x0E,
            PacketKind::BlockPlacement => 0x0F,
            PacketKind::EntityAction => 0x13,
            PacketKind::UseEntity => 0x07,
            PacketKind::HeldItemChange => 0x10,
            PacketKind::WindowClick => 0x66,
            PacketKind::Transaction => 0x6A,
            PacketKind::Disconnect => 0xFF,
        }
    }

    /// Whether a packet of this kind holds a string.
    pub open spec fn reads_string(self) -> bool {
        self == PacketKind::ChatMessage || self == PacketKind::Disconnect
    }

    /// The id byte that starts a packet of this kind.
    pub fn id(self) -> (id: u8)
        ensures
            id == self.spec_id(),
    {
        match self {
            PacketKind::KeepAlive => 0x00,
            PacketKind::PlayerFlying => 0x0A,
            PacketKind::PlayerPosition => 0x0B,
            PacketKind::PlayerLook => 0x0C,
            PacketKind::PlayerPosLook => 0x0D,
            PacketKind::ChatMessage => 0x03,
            PacketKind::ArmAnimation => 0x12,
            PacketKind::CloseWindow => 0x65,
            PacketKind::PlayerDigging => 0x0E,
            PacketKind::BlockPlacement => 0x0F,
            PacketKind::EntityAction => 0x13,
            PacketKind::UseEntity => 0x07,
            PacketKind::HeldItemChange => 0x10,
            PacketKind::WindowClick => 0x66,
            PacketKind::Transaction => 0x6A,
            PacketKind::Disconnect => 0xFF,
        }
    }
}

/// A read of a fixed packet's fields as an outcome: the handling asked for
/// and the bytes consumed, or a failure when the bytes end early.
pub open spec fn fixed_outcome(
    s: Seq<u8>,
    n: int,
    o: (ConnectionAction, EffectView),
) -> Result<(ConnectionAction, EffectView, int), ReadError> {
    if s.len() >= n {
        Ok((o.0, o.1, n))
    } else {
        Err(ReadError::UnexpectedEof)
    }
}

/// A read of a string packet's field as an outcome.
pub open spec fn string_outcome(
    s: Seq<u8>,
    outcome: spec_fn(Seq<char>) -> (ConnectionAction, EffectView),
) -> Result<(ConnectionAction, EffectView, int), ReadError> {
    match string_read(s) {
        Ok(t) => Ok((outcome(t).0, outcome(t).1, string_extent(s))),
        Err(e) => Err(e),
    }
}

/// What reading and handling a packet of kind `kind` (its id already read)
/// from bytes `s` gives, for the player with the given id, name and
/// position: the action, the effect and the bytes consumed, or why the
/// packet could not be read.
pub open spec fn dispatched(
    kind: PacketKind,
    s: Seq<u8>,
    player_id: i32,
    username: Seq<char>,
    position: Position,
) -> Result<(ConnectionAction, EffectView, int), ReadError> {
    match kind {
        PacketKind::KeepAlive => fixed_outcome(
            s,
            KeepAlivePacket::wire_len(),
            KeepAlivePacket::parsed(s).outcome(player_id, username, position),
        ),
        PacketKind::PlayerFlying => fixed_outcome(
            s,
            PlayerFlyingPacket::wire_len(),
            PlayerFlyingPacket::parsed(s).outcome(player_id, username, position),
        ),
        PacketKind::PlayerPosition => fixed_outcome(
            s,
            PlayerPositionPacket::wire_len(),
            PlayerPositionPacket::parsed(s).outcome(player_id, username, position),
        ),
        PacketKind::PlayerLook => fixed_outcome(
            s,
            PlayerLookPacket::wire_len(),
            PlayerLookPacket::parsed(s).outcome(player_id, username, position),
        ),
        PacketKind::PlayerPosLook => fixed_outcome(
            s,
            PlayerPosLookPacket::wire_len(),
            PlayerPosLookPacket::parsed(s).outcome(player_id, username, position),
        ),
        PacketKind::ChatMessage => string_outcome(
            s,
            |t: Seq<char>| ChatMessagePacket::outcome(t, player_id, username, position),
        ),
        PacketKind::ArmAnimation => fixed_outcome(
            s,
            ArmAnimationPacket::wire_len(),
            ArmAnimationPacket::parsed(s).outcome(player_id, username, position),
        ),
        PacketKind::CloseWindow => fixed_outcome(
            s,
            CloseWindowPacket::wire_len(),
            CloseWindowPacket::parsed(s).outcome(player_id, username, position),
        ),
        PacketKind::PlayerDigging => fixed_outcome(
            s,
            PlayerDiggingPacket::wire_len(),
            PlayerDiggingPacket::parsed(s).outcome(player_id, username, position),
        ),
        PacketKind::BlockPlacement => fixed_outcome(
            s,
            BlockPlacementPacket::wire_len(s),
            BlockPlacementPacket::parsed(s).outcome(player_id, username, position),
        ),
        PacketKind::EntityAction => fixed_outcome(
            s,
            EntityActionPacket::wire_len(),
            EntityActionPacket::parsed(s).outcome(player_id, username, position),
        ),
        PacketKind::UseEntity => fixed_outcome(
            s,
            UseEntityPacket::wire_len(),
            UseEntityPacket::parsed(s).outcome(player_id, username, position),
        ),
        PacketKind::HeldItemChange => fixed_outcome(
            s,
            HeldItemChangePacket::wire_len(),
            HeldItemChangePacket::parsed(s).outcome(player_id, username, position),
        ),
        PacketKind::WindowClick => fixed_outcome(
            s,
            WindowClickPacket::wire_len(s),
            WindowClickPacket::parsed(s).outcome(player_id, username, position),
        ),
        PacketKind::Transaction => fixed_outcome(
            s,
            TransactionPacket::wire_len(),
            TransactionPacket::parsed(s).outcome(player_id, username, position),
        ),
        PacketKind::Disconnect => string_outcome(
            s,
            |t: Seq<char>| DisconnectPacket::outcome(t, player_id, username, position),
        ),
    }
}

/// Whether a read-and-handle result matches `dispatched` on the bytes
/// before it: on success the reader has consumed the packet; on failure it
/// has consumed nothing when the bytes ended early, and the whole string
/// when a string was not valid UTF-16.
pub open spec fn handled_as<'a>(
    r: Result<(ConnectionAction, Effect), ReadError>,
    expected: Result<(ConnectionAction, EffectView, int), ReadError>,
    before: PacketReader<'a>,
    after: PacketReader<'a>,
) -> bool {
    match expected {
        Ok((a, e, n)) => r is Ok && r->Ok_0.0 == a && r->Ok_0.1@ == e && after.advanced_from(
            before,
            n,
        ),
        Err(err) => r == Err::<(ConnectionAction, Effect), ReadError>(err) && after.left_after(
            before,
            string_error_extent(err, before@),
        ),
    }
}

/// Reads a packet of kind `kind` (its id already read) and handles it.
pub fn read_and_handle(kind: PacketKind, reader: &mut PacketReader, player: &PlayerState) -> (r:
    Result<(ConnectionAction, Effect), ReadError>)
    requires
        kind.reads_string() ==> string_length_ok(old(reader)@, 0),
    ensures
        handled_as(
            r,
            dispatched(kind, old(reader)@, player.id, player.username@, player.position),
            *old(reader),
            *final(reader),
        ),
{
    match kind {
        PacketKind::KeepAlive => Ok(KeepAlivePacket::read(reader)?.handle(player)),
        PacketKind::PlayerFlying => Ok(PlayerFlyingPacket::read(reader)?.handle(player)),
        PacketKind::PlayerPosition => Ok(PlayerPositionPacket::read(reader)?.handle(player)),
        PacketKind::PlayerLook => Ok(PlayerLookPacket::read(reader)?.handle(player)),
        PacketKind::PlayerPosLook => Ok(PlayerPosLookPacket::read(reader)?.handle(player)),
        PacketKind::ChatMessage => Ok(ChatMessagePacket::read(reader)?.handle(player)),
        PacketKind::ArmAnimation => Ok(ArmAnimationPacket::read(reader)?.handle(player)),
        PacketKind::CloseWindow => Ok(CloseWindowPacket::read(reader)?.handle(player)),
        PacketKind::PlayerDigging => Ok(PlayerDiggingPacket::read(reader)?.handle(player)),
        PacketKind::BlockPlacement => Ok(BlockPlacementPacket::read(reader)?.handle(player)),
        PacketKind::EntityAction => Ok(EntityActionPacket::read(reader)?.handle(player)),
        PacketKind::UseEntity => Ok(UseEntityPacket::read(reader)?.handle(player)),
        PacketKind::HeldItemChange => Ok(HeldItemChangePacket::read(reader)?.handle(player)),
        PacketKind::WindowClick => Ok(WindowClickPacket::read(reader)?.handle(player)),
        PacketKind::Transaction => Ok(TransactionPacket::read(reader)?.handle(player)),
        PacketKind::Disconnect => Ok(DisconnectPacket::read(reader)?.handle(player)),
    }
}

/// The movement packets carry their fields in wire order: x, y, stance and z
/// as the eight big-endian bytes of `f64` bit patterns, yaw and pitch as the
/// four big-endian bytes of `f32` bit patterns, then the on-ground flag.
/// Whatever values a client writes in that order, dispatching those bytes
/// (and whatever follows them) keeps the connection and puts the player at
/// exactly those values, consuming exactly the packet's fields.
#[verifier::spinoff_prover]
pub proof fn law_movement_read_back(
    x: u64,
    y: u64,
    stance: u64,
    z: u64,
    yaw: u32,
    pitch: u32,
    on_ground: bool,
    rest: Seq<u8>,
    player_id: i32,
    username: Seq<char>,
    position: Position,
)
    ensures
        dispatched(
            PacketKind::PlayerPosLook,
            be8(x as int) + be8(y as int) + be8(stance as int) + be8(z as int) + be4(yaw as int)
                + be4(pitch as int) + bool_bytes(on_ground) + rest,
            player_id,
            username,
            position,
        ) == Ok::<(ConnectionAction, EffectView, int), ReadError>(
            (
                ConnectionAction::Continue,
                EffectView::UpdatePosition(Position { x, y, z, yaw, pitch, on_ground }),
                41,
            ),
        ),
        dispatched(
            PacketKind::PlayerPosition,
            be8(x as int) + be8(y as int) + be8(stance as int) + be8(z as int) + bool_bytes(
                on_ground,
            ) + rest,
            player_id,
            username,
            position,
        ) == Ok::<(ConnectionAction, EffectView, int), ReadError>(
            (
                ConnectionAction::Continue,
                EffectView::UpdatePosition(Position { x, y, z, on_ground, ..position }),
                33,
            ),
        ),
        dispatched(
            PacketKind::PlayerLook,
            be4(yaw as int) + be4(pitch as int) + bool_bytes(on_ground) + rest,
            player_id,
            username,
            position,
        ) == Ok::<(ConnectionAction, EffectView, int), ReadError>(
            (
                ConnectionAction::Continue,
                EffectView::UpdatePosition(Position { yaw, pitch, on_ground, ..position }),
                9,
            ),
        ),
        dispatched(
            PacketKind::PlayerFlying,
            bool_bytes(on_ground) + rest,
            player_id,
            username,
            position,
        ) == Ok::<(ConnectionAction, EffectView, int), ReadError>(
            (
                ConnectionAction::Continue,
                EffectView::SetPosition(Position { on_ground, ..position }),
                1,
            ),
        ),
{
    lemma_pos_look_dispatch(x, y, stance, z, yaw, pitch, on_ground, rest, player_id, username, position);
    lemma_position_dispatch(x, y, stance, z, on_ground, rest, player_id, username, position);
    lemma_look_dispatch(yaw, pitch, on_ground, rest, player_id, username, position);
    assert((bool_bytes(on_ground) + rest)[0] == bool_bytes(on_ground)[0]);
}

#[verifier::spinoff_prover]
proof fn lemma_pos_look_dispatch(
    x: u64,
    y: u64,
    stance: u64,
    z: u64,
    yaw: u32,
    pitch: u32,
    on_ground: bool,
    rest: Seq<u8>,
    player_id: i32,
    username: Seq<char>,
    position: Position,
)
    ensures
        dispatched(
            PacketKind::PlayerPosLook,
            be8(x as int) + be8(y as int) + be8(stance as int) + be8(z as int) + be4(yaw as int)
                + be4(pitch as int) + bool_bytes(on_ground) + rest,
            player_id,
            username,
            position,
        ) == Ok::<(ConnectionAction, EffectView, int), ReadError>(
            (
                ConnectionAction::Continue,
                EffectView::UpdatePosition(Position { x, y, z, yaw, pitch, on_ground }),
                41,
            ),
        ),
{
    lemma_pos_look_fields(x, y, stance, z, yaw, pitch, on_ground, rest);
}

#[verifier::spinoff_prover]
proof fn lemma_position_dispatch(
    x: u64,
    y: u64,
    stance: u64,
    z: u64,
    on_ground: bool,
    rest: Seq<u8>,
    player_id: i32,
    username: Seq<char>,
    position: Position,
)
    ensures
        dispatched(
            PacketKind::PlayerPosition,
            be8(x as int) + be8(y as int) + be8(stance as int) + be8(z as int) + bool_bytes(
                on_ground,
            ) + rest,
            player_id,
            username,
            position,
        ) == Ok::<(ConnectionAction, EffectView, int), ReadError>(
            (
                ConnectionAction::Continue,
                EffectView::UpdatePosition(Position { x, y, z, on_ground, ..position }),
                33,
            ),
        ),
{
    lemma_position_fields(x, y, stance, z, on_ground, rest);
}

#[verifier::spinoff_prover]
proof fn lemma_look_dispatch(
    yaw: u32,
    pitch: u32,
    on_ground: bool,
    rest: Seq<u8>,
    player_id: i32,
    username: Seq<char>,
    position: Position,
)
    ensures
        dispatched(
            PacketKind::PlayerLook,
            be4(yaw as int) + be4(pitch as int) + bool_bytes(on_ground) + rest,
            player_id,
            username,
            position,
        ) == Ok::<(ConnectionAction, EffectView, int), ReadError>(
            (
                ConnectionAction::Continue,
                EffectView::UpdatePosition(Position { yaw, pitch, on_ground, ..position }),
                9,
            ),
        ),
{
    lemma_look_fields(yaw, pitch, on_ground, rest);
}

proof fn lemma_pos_look_fields(
    x: u64,
    y: u64,
    stance: u64,
    z: u64,
    yaw: u32,
    pitch: u32,
    on_ground: bool,
    rest: Seq<u8>,
)
    ensures
        PlayerPosLookPacket::parsed(
            be8(x as int) + be8(y as int) + be8(stance as int) + be8(z as int) + be4(yaw as int)
                + be4(pitch as int) + bool_bytes(on_ground) + rest,
        ) == (PlayerPosLookPacket { x, y, stance, z, yaw, pitch, on_ground }),
        (be8(x as int) + be8(y as int) + be8(stance as int) + be8(z as int) + be4(yaw as int) + be4(
            pitch as int,
        ) + bool_bytes(on_ground) + rest).len() == 41 + rest.len(),
{
    crate::codec::lemma_be8_roundtrip(x as int);
    crate::codec::lemma_be8_roundtrip(y as int);
    crate::codec::lemma_be8_roundtrip(stance as int);
    crate::codec::lemma_be8_roundtrip(z as int);
    crate::codec::lemma_be4_roundtrip(yaw as int);
    crate::codec::lemma_be4_roundtrip(pitch as int);
    let g = bool_bytes(on_ground);
    let full = be8(x as int) + be8(y as int) + be8(stance as int) + be8(z as int) + be4(
        yaw as int,
    ) + be4(pitch as int) + g + rest;
    assert(full.subrange(0, 8) =~= be8(x as int));
    assert(full.subrange(8, 16) =~= be8(y as int));
    assert(full.subrange(16, 24) =~= be8(stance as int));
    assert(full.subrange(24, 32) =~= be8(z as int));
    assert(full.subrange(32, 36) =~= be4(yaw as int));
    assert(full.subrange(36, 40) =~= be4(pitch as int));
    assert(full[40] == g[0]);
}

proof fn lemma_position_fields(
    x: u64,
    y: u64,
    stance: u64,
    z: u64,
    on_ground: bool,
    rest: Seq<u8>,
)
    ensures
        PlayerPositionPacket::parsed(
            be8(x as int) + be8(y as int) + be8(stance as int) + be8(z as int) + bool_bytes(
                on_ground,
            ) + rest,
        ) == (PlayerPositionPacket { x, y, stance, z, on_ground }),
        (be8(x as int) + be8(y as int) + be8(stance as int) + be8(z as int) + bool_bytes(on_ground)
            + rest).len() == 33 + rest.len(),
{
    crate::codec::lemma_be8_roundtrip(x as int);
    crate::codec::lemma_be8_roundtrip(y as int);
    crate::codec::lemma_be8_roundtrip(stance as int);
    crate::codec::lemma_be8_roundtrip(z as int);
    let g = bool_bytes(on_ground);
    let moved = be8(x as int) + be8(y as int) + be8(stance as int) + be8(z as int) + g + rest;
    assert(moved.subrange(0, 8) =~= be8(x as int));
    assert(moved.subrange(8, 16) =~= be8(y as int));
    assert(moved.subrange(16, 24) =~= be8(stance as int));
    assert(moved.subrange(24, 32) =~= be8(z as int));
    assert(moved[32] == g[0]);
}

proof fn lemma_look_fields(yaw: u32, pitch: u32, on_ground: bool, rest: Seq<u8>)
    ensures
        PlayerLookPacket::parsed(be4(yaw as int) + be4(pitch as int) + bool_bytes(on_ground) + rest)
            == (PlayerLookPacket { yaw, pitch, on_ground }),
        (be4(yaw as int) + be4(pitch as int) + bool_bytes(on_ground) + rest).len() == 9 + rest.len(),
{
    crate::codec::lemma_be4_roundtrip(yaw as int);
    crate::codec::lemma_be4_roundtrip(pitch as int);
    let g = bool_bytes(on_ground);
    let turned = be4(yaw as int) + be4(pitch as int) + g + rest;
    assert(turned.subrange(0, 4) =~= be4(yaw as int));
    assert(turned.subrange(4, 8) =~= be4(pitch as int));
    assert(turned[8] == g[0]);
}

/// Only a disconnect packet ends a connection: whatever the bytes, reading
/// and handling a packet of any other kind either fails to read or keeps
/// the connection; a keep-alive, which has no fields, always keeps it,
/// asks nothing else and consumes nothing; and a disconnect packet whose
/// reason reads ends the connection, passing that reason on.
pub proof fn law_only_disconnect_ends(
    kind: PacketKind,
    s: Seq<u8>,
    player_id: i32,
    username: Seq<char>,
    position: Position,
)
    ensures
        kind != PacketKind::Disconnect ==> match dispatched(
            kind,
            s,
            player_id,
            username,
            position,
        ) {
            Ok((action, _, _)) => action == ConnectionAction::Continue,
            Err(_) => true,
        },
        dispatched(PacketKind::KeepAlive, s, player_id, username, position) == Ok::<
            (ConnectionAction, EffectView, int),
            ReadError,
        >((ConnectionAction::Continue, EffectView::Nothing, 0)),
        match string_read(s) {
            Ok(reason) => dispatched(PacketKind::Disconnect, s, player_id, username, position)
                == Ok::<(ConnectionAction, EffectView, int), ReadError>(
                (ConnectionAction::Disconnect, EffectView::Disconnected(reason), string_extent(s)),
            ),
            Err(e) => dispatched(PacketKind::Disconnect, s, player_id, username, position) == Err::<
                (ConnectionAction, EffectView, int),
                ReadError,
            >(e),
        },
{
}

/// What a chat message does, character by character. A message that is
/// empty or does not start with '/' is said to everyone as the line that
/// is '<', the sender's name, '>', a space, then the message unchanged. A
/// command comes only from a message whose first character is '/', and it
/// is the rest of the message. The same holds of the bytes a client sends:
/// a chat packet carrying a message that fits is read and handled so.
pub proof fn law_chat_line(
    message: Seq<char>,
    rest: Seq<u8>,
    player_id: i32,
    username: Seq<char>,
    position: Position,
)
    ensures
        (message.len() == 0 || message[0] != '/') ==> ({
            let o = ChatMessagePacket::outcome(message, player_id, username, position);
            let n = username.len() as int;
            &&& o.0 == ConnectionAction::Continue
            &&& o.1 matches EffectView::Chat(line)
            &&& line.len() == n + 3 + message.len()
            &&& line[0] == '<'
            &&& line.subrange(1, n + 1) == username
            &&& line[n + 1] == '>'
            &&& line[n + 2] == ' '
            &&& line.skip(n + 3) == message
        }),
        match ChatMessagePacket::outcome(message, player_id, username, position).1 {
            EffectView::Command(c) => message.len() > 0 && message[0] == '/' && seq!['/'] + c
                == message,
            _ => true,
        },
        (message.len() > 0 && message[0] == '/') ==> ChatMessagePacket::outcome(
            message,
            player_id,
            username,
            position,
        ) == (ConnectionAction::Continue, EffectView::Command(message.skip(1))),
        string_fits(message) ==> dispatched(
            PacketKind::ChatMessage,
            string_bytes(message) + rest,
            player_id,
            username,
            position,
        ) == Ok::<(ConnectionAction, EffectView, int), ReadError>(
            (
                ChatMessagePacket::outcome(message, player_id, username, position).0,
                ChatMessagePacket::outcome(message, player_id, username, position).1,
                string_bytes(message).len() as int,
            ),
        ),
{
    let n = username.len() as int;
    if !(message.len() > 0 && message[0] == '/') {
        let line = chat_line(username, message);
        assert(line.subrange(1, n + 1) =~= username);
        assert(line.skip(n + 3) =~= message);
    } else {
        assert(seq!['/'] + message.skip(1) =~= message);
    }
    if string_fits(message) {
        law_read_written_string(message, rest);
    }
}

/// Crouching and standing up are shown to everyone else: an entity-action
/// packet whose fields are an `i32` entity id then an action byte is read
/// back as written, keeps the connection and consumes its five bytes;
/// action 1 sends every other player a crouch packet for this player with
/// the sneaking flag set, action 2 one with it cleared, and any other
/// action asks nothing.
pub proof fn law_entity_action_read_back(
    entity_id: i32,
    action: u8,
    rest: Seq<u8>,
    player_id: i32,
    username: Seq<char>,
    position: Position,
)
    ensures
        EntityActionPacket::parsed(i32_bytes(entity_id) + u8_bytes(action) + rest) == (
        EntityActionPacket { entity_id, action }),
        dispatched(
            PacketKind::EntityAction,
            i32_bytes(entity_id) + u8_bytes(action) + rest,
            player_id,
            username,
            position,
        ) == Ok::<(ConnectionAction, EffectView, int), ReadError>(
            (
                ConnectionAction::Continue,
                if action == 1 || action == 2 {
                    EffectView::BroadcastExcept {
                        except: player_id,
                        packet: ClientboundPacket::PlayerCrouch {
                            entity_id: player_id,
                            sneaking: action == 1,
                        },
                    }
                } else {
                    EffectView::Nothing
                },
                5,
            ),
        ),
{
    law_integer_roundtrip(0, entity_id, 0, 0, 0);
    let b = i32_bytes(entity_id) + u8_bytes(action) + rest;
    assert(b.subrange(0, 4) =~= i32_bytes(entity_id));
    assert(b[4] == action);
}

/// The other fixed packets are read back as written: whatever field values
/// a client writes, in wire order and with the wire's integer encodings,
/// the packet read from those bytes (and whatever follows them) holds
/// exactly those values.
#[verifier::rlimit(40)]
pub proof fn law_fixed_packets_read_back(
    a: i32,
    b: i32,
    c: u8,
    d: u8,
    e: u8,
    slot: i16,
    flag: bool,
    rest: Seq<u8>,
)
    ensures
        ArmAnimationPacket::parsed(i32_bytes(a) + u8_bytes(c) + rest) == (ArmAnimationPacket {
            entity_id: a,
            animate: c,
        }),
        CloseWindowPacket::parsed(u8_bytes(c) + rest) == (CloseWindowPacket { window_id: c }),
        PlayerDiggingPacket::parsed(
            u8_bytes(c) + i32_bytes(a) + u8_bytes(d) + i32_bytes(b) + u8_bytes(e) + rest,
        ) == (PlayerDiggingPacket { status: c, x: a, y: d, z: b, face: e }),
        UseEntityPacket::parsed(i32_bytes(a) + i32_bytes(b) + bool_bytes(flag) + rest) == (
        UseEntityPacket { user_id: a, target_id: b, left_click: flag }),
        HeldItemChangePacket::parsed(i16_bytes(slot) + rest) == (HeldItemChangePacket { slot }),
        TransactionPacket::parsed(u8_bytes(c) + i16_bytes(slot) + bool_bytes(flag) + rest) == (
        TransactionPacket { window_id: c, action: slot, accepted: flag }),
{
    law_integer_roundtrip(slot, a, 0, 0, 0);
    law_integer_roundtrip(0, b, 0, 0, 0);
    let arm = i32_bytes(a) + u8_bytes(c) + rest;
    assert(arm.subrange(0, 4) =~= i32_bytes(a));
    assert(arm[4] == c);
    assert((u8_bytes(c) + rest)[0] == c);
    let dig = u8_bytes(c) + i32_bytes(a) + u8_bytes(d) + i32_bytes(b) + u8_bytes(e) + rest;
    assert(dig[0] == c);
    assert(dig.subrange(1, 5) =~= i32_bytes(a));
    assert(dig[5] == d);
    assert(dig.subrange(6, 10) =~= i32_bytes(b));
    assert(dig[10] == e);
    let use_entity = i32_bytes(a) + i32_bytes(b) + bool_bytes(flag) + rest;
    assert(use_entity.subrange(0, 4) =~= i32_bytes(a));
    assert(use_entity.subrange(4, 8) =~= i32_bytes(b));
    assert(use_entity[8] == bool_bytes(flag)[0]);
    let held = i16_bytes(slot) + rest;
    assert(held.subrange(0, 2) =~= i16_bytes(slot));
    let transaction = u8_bytes(c) + i16_bytes(slot) + bool_bytes(flag) + rest;
    assert(transaction[0] == c);
    assert(transaction.subrange(1, 3) =~= i16_bytes(slot));
    assert(transaction[3] == bool_bytes(flag)[0]);
}

/// A block placement is read back as written: x as an `i32`, y as a byte,
/// z as an `i32`, the direction byte, then the item id as an `i16`. With an
/// id that is not negative, a count byte and an `i16` damage follow and are
/// the placed item; with a negative id nothing follows and no item is
/// placed.
#[verifier::spinoff_prover]
pub proof fn law_block_placement_read_back(
    x: i32,
    y: u8,
    z: i32,
    direction: u8,
    id: i16,
    count: u8,
    damage: i16,
    rest: Seq<u8>,
)
    ensures
        ({
            let head = i32_bytes(x) + u8_bytes(y) + i32_bytes(z) + u8_bytes(direction) + i16_bytes(
                id,
            );
            let b = head + u8_bytes(count) + i16_bytes(damage) + rest;
            let none = head + rest;
            &&& id >= 0 ==> BlockPlacementPacket::wire_len(b) == 15
                && BlockPlacementPacket::parsed(b) == (BlockPlacementPacket {
                x,
                y,
                z,
                direction,
                item: Some(ItemStack { id, count, damage }),
            })
            &&& id < 0 ==> BlockPlacementPacket::wire_len(none) == 12
                && BlockPlacementPacket::parsed(none) == (BlockPlacementPacket {
                x,
                y,
                z,
                direction,
                item: None,
            })
        }),
{
    law_integer_roundtrip(id, x, 0, 0, 0);
    law_integer_roundtrip(damage, z, 0, 0, 0);
    let head = i32_bytes(x) + u8_bytes(y) + i32_bytes(z) + u8_bytes(direction) + i16_bytes(id);
    let b = head + u8_bytes(count) + i16_bytes(damage) + rest;
    let none = head + rest;
    assert(b.subrange(0, 4) =~= i32_bytes(x));
    assert(b.subrange(5, 9) =~= i32_bytes(z));
    assert(b.subrange(10, 12) =~= i16_bytes(id));
    assert(b.subrange(13, 15) =~= i16_bytes(damage));
    assert(b[4] == y && b[9] == direction && b[12] == count);
    assert(none.subrange(0, 4) =~= i32_bytes(x));
    assert(none.subrange(5, 9) =~= i32_bytes(z));
    assert(none.subrange(10, 12) =~= i16_bytes(id));
    assert(none[4] == y && none[9] == direction);
}

/// A window click is read back as written: the window byte, the slot as
/// an `i16`, the click byte, the action as an `i16`, the shift flag, then
/// the item id as an `i16`. Unless the id is -1, a count byte and an `i16`
/// damage follow and are the clicked item; with -1 nothing follows and
/// there is no item.
#[verifier::spinoff_prover]
pub proof fn law_window_click_read_back(
    window_id: u8,
    slot: i16,
    rightclick: u8,
    action: i16,
    shift: bool,
    id: i16,
    count: u8,
    damage: i16,
    rest: Seq<u8>,
)
    ensures
        ({
            let head = u8_bytes(window_id) + i16_bytes(slot) + u8_bytes(rightclick) + i16_bytes(
                action,
            ) + bool_bytes(shift) + i16_bytes(id);
            let b = head + u8_bytes(count) + i16_bytes(damage) + rest;
            let none = head + rest;
            &&& id != -1 ==> WindowClickPacket::wire_len(b) == 12 && WindowClickPacket::parsed(b)
                == (WindowClickPacket {
                window_id,
                slot,
                rightclick,
                action,
                shift,
                item: Some(ItemStack { id, count, damage }),
            })
            &&& id == -1 ==> WindowClickPacket::wire_len(none) == 9 && WindowClickPacket::parsed(
                none,
            ) == (WindowClickPacket { window_id, slot, rightclick, action, shift, item: None })
        }),
{
    law_integer_roundtrip(slot, 0, 0, 0, 0);
    law_integer_roundtrip(action, 0, 0, 0, 0);
    law_integer_roundtrip(id, 0, 0, 0, 0);
    law_integer_roundtrip(damage, 0, 0, 0, 0);
    let head = u8_bytes(window_id) + i16_bytes(slot) + u8_bytes(rightclick) + i16_bytes(action)
        + bool_bytes(shift) + i16_bytes(id);
    let b = head + u8_bytes(count) + i16_bytes(damage) + rest;
    let none = head + rest;
    assert(b.subrange(1, 3) =~= i16_bytes(slot));
    assert(b.subrange(4, 6) =~= i16_bytes(action));
    assert(b.subrange(7, 9) =~= i16_bytes(id));
    assert(b.subrange(10, 12) =~= i16_bytes(damage));
    assert(b[0] == window_id && b[3] == rightclick && b[6] == bool_bytes(shift)[0] && b[9]
        == count);
    assert(none.subrange(1, 3) =~= i16_bytes(slot));
    assert(none.subrange(4, 6) =~= i16_bytes(action));
    assert(none.subrange(7, 9) =~= i16_bytes(id));
    assert(none[0] == window_id && none[3] == rightclick && none[6] == bool_bytes(shift)[0]);
}

} // verus!
