//! Which packet kind each id byte stands for, and the dispatch of a
//! received packet to its reader and handler.

use vstd::prelude::*;
use crate::codec::string_length_ok;
use crate::handlers::{
    dispatched, handled_as, read_and_handle, ConnectionAction, Effect, PacketKind, PlayerState,
};
use crate::reader::{PacketReader, ReadError};

verus! {

/// The packet kind registered for each of the 256 id bytes, if any.
pub struct PacketRegistry {
    handlers: Vec<Option<PacketKind>>,
}

/// The kind every id stands for in the standard registry: the sixteen
/// packets a logged-in client may send, each under its own id.
pub open spec fn standard_kind(id: u8) -> Option<PacketKind> {
    if id == 0x00 {
        Some(PacketKind::KeepAlive)
    } else if id == 0x0A {
        Some(PacketKind::PlayerFlying)
    } else if id == 0x0B {
        Some(PacketKind::PlayerPosition)
    } else if id == 0x0C {
        Some(PacketKind::PlayerLook)
    } else if id == 0x0D {
        Some(PacketKind::PlayerPosLook)
    } else if id == 0x03 {
        Some(PacketKind::ChatMessage)
    } else if id == 0x12 {
        Some(PacketKind::ArmAnimation)
    } else if id == 0x65 {
        Some(PacketKind::CloseWindow)
    } else if id == 0x0E {
        Some(PacketKind::PlayerDigging)
    } else if id == 0x0F {
        Some(PacketKind::BlockPlacement)
    } else if id == 0x13 {
        Some(PacketKind::EntityAction)
    } else if id == 0x07 {
        Some(PacketKind::UseEntity)
    } else if id == 0x10 {
        Some(PacketKind::HeldItemChange)
    } else if id == 0x66 {
        Some(PacketKind::WindowClick)
    } else if id == 0x6A {
        Some(PacketKind::Transaction)
    } else if id == 0xFF {
        Some(PacketKind::Disconnect)
    } else {
        None
    }
}

impl PacketRegistry {
    #[verifier::type_invariant]
    closed spec fn inv(&self) -> bool {
        &&& self.handlers@.len() == 256
        &&& forall|i: int|
            0 <= i < 256 ==> (#[trigger] self.handlers@[i] matches Some(k) ==> k.spec_id() == i)
    }

    /// The kind registered for `id`, if any.
    pub closed spec fn handler(&self, id: u8) -> Option<PacketKind> {
        self.handlers@[id as int]
    }

    /// The kind registered for `id`, if any.
    pub fn kind(&self, id: u8) -> (k: Option<PacketKind>)
        ensures
            k == self.handler(id),
    {
        proof { use_type_invariant(self); }
        self.handlers[id as usize]
    }

    /// A registry with no kind registered.
    pub fn new() -> (r: PacketRegistry)
        ensures
            forall|id: u8| #[trigger] r.handler(id) is None,
    {
        let handlers = empty_table();
        PacketRegistry { handlers }
    }

    /// Registers `kind` under its id, replacing what was there.
    pub fn register(&mut self, kind: PacketKind)
        ensures
            forall|id: u8|
                #[trigger] final(self).handler(id) == if id == kind.spec_id() {
                    Some(kind)
                } else {
                    old(self).handler(id)
                },
    {
        proof { use_type_invariant(&*self); }
        let mut handlers = empty_table();
        std::mem::swap(&mut handlers, &mut self.handlers);
        handlers.set(kind.id() as usize, Some(kind));
        std::mem::swap(&mut handlers, &mut self.handlers);
    }

    /// Reads and handles a packet whose id byte `id` has just been read: with
    /// the kind registered for `id`, or fails with `UnhandledPacket` when
    /// there is none, consuming nothing.
    pub fn handle(&self, id: u8, reader: &mut PacketReader, player: &PlayerState) -> (r: Result<
        (ConnectionAction, Effect),
        ReadError,
    >)
        requires
            self.handler(id) matches Some(k) && k.reads_string() ==> string_length_ok(
                old(reader)@,
                0,
            ),
        ensures
            match self.handler(id) {
                None => r == Err::<(ConnectionAction, Effect), ReadError>(
                    ReadError::UnhandledPacket(id),
                ) && *final(reader) == *old(reader),
                Some(k) => handled_as(
                    r,
                    dispatched(k, old(reader)@, player.id, player.username@, player.position),
                    *old(reader),
                    *final(reader),
                ),
            },
    {
        proof { use_type_invariant(self); }
        match self.handlers[id as usize] {
            Some(kind) => read_and_handle(kind, reader, player),
            None => Err(ReadError::UnhandledPacket(id)),
        }
    }
}

/// 256 empty entries.
fn empty_table() -> (t: Vec<Option<PacketKind>>)
    ensures
        t@.len() == 256,
        forall|j: int| 0 <= j < 256 ==> #[trigger] t@[j] is None,
{
    let mut t: Vec<Option<PacketKind>> = Vec::new();
    let mut i: usize = 0;
    while i < 256
        invariant
            i <= 256,
            t@.len() == i,
            forall|j: int| 0 <= j < i ==> #[trigger] t@[j] is None,
        decreases 256 - i,
    {
        t.push(None);
        i = i + 1;
    }
    t
}

/// The registry with the sixteen packets a logged-in client may send.
pub fn registry() -> (r: PacketRegistry)
    ensures
        forall|id: u8| #[trigger] r.handler(id) == standard_kind(id),
{
    let mut r = PacketRegistry::new();
    r.register(PacketKind::KeepAlive);
    r.register(PacketKind::PlayerFlying);
    r.register(PacketKind::PlayerPosition);
    r.register(PacketKind::PlayerLook);
    r.register(PacketKind::PlayerPosLook);
    r.register(PacketKind::ChatMessage);
    r.register(PacketKind::ArmAnimation);
    r.register(PacketKind::CloseWindow);
    r.register(PacketKind::PlayerDigging);
    r.register(PacketKind::BlockPlacement);
    r.register(PacketKind::EntityAction);
    r.register(PacketKind::UseEntity);
    r.register(PacketKind::HeldItemChange);
    r.register(PacketKind::WindowClick);
    r.register(PacketKind::Transaction);
    r.register(PacketKind::Disconnect);
    r
}

/// The standard registry holds each of the sixteen kinds under the id byte
/// that starts a packet of that kind, and nothing else: an id maps to a
/// kind exactly when it is that kind's id, so no two kinds share an id.
pub proof fn law_standard_ids(kind: PacketKind, id: u8)
    ensures
        standard_kind(kind.spec_id()) == Some(kind),
        standard_kind(id) matches Some(k) ==> k.spec_id() == id,
        standard_kind(id) == Some(kind) <==> kind.spec_id() == id,
{
}

} // verus!
