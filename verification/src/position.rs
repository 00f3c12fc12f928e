//! Positions of players in the world.

use vstd::prelude::*;

verus! {

/// Where an entity is and where it looks. The floating-point components
/// are held as their IEEE-754 bit patterns: `x`, `y` and `z` as the bits
/// of `f64` values, `yaw` and `pitch` as the bits of `f32` values.
#[derive(Debug, Clone, Copy, PartialEq, Eq, Structural)]
pub struct Position {
    pub x: u64,
    pub y: u64,
    pub z: u64,
    pub yaw: u32,
    pub pitch: u32,
    pub on_ground: bool,
}

impl Position {
    /// This position looking another way.
    pub fn with_look(self, yaw: u32, pitch: u32) -> (r: Position)
        ensures
            r == (Position { yaw, pitch, ..self }),
    {
        Position { yaw, pitch, ..self }
    }

    /// This position with another on-ground flag.
    pub fn with_ground(self, on_ground: bool) -> (r: Position)
        ensures
            r == (Position { on_ground, ..self }),
    {
        Position { on_ground, ..self }
    }

    /// The coordinate of the chunk that holds block coordinate `block`:
    /// the block coordinate divided by 16, rounded down.
    pub fn chunk_coord(block: i32) -> (c: i32)
        ensures
            c == block as int / 16,
    {
        if block >= 0 {
            block / 16
        } else {
            -((-(block + 1)) / 16) - 1
        }
    }
}

} // verus!
