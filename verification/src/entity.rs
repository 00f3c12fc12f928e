//! Entities, the ids they are known by, and the registry that finds them
//! by id.

use vstd::prelude::*;
use std::collections::HashMap;
use std::sync::Arc;
use crate::position::Position;

verus! {

/// Anything that can be registered: it has a stable id.
pub trait Identified {
    /// The id, as a value.
    spec fn spec_id(&self) -> i32;

    /// The id.
    fn id(&self) -> (r: i32)
        ensures
            r == self.spec_id(),
    ;
}

/// Hands out entity ids: 0, 1, 2, ... in turn, wrapping around after
/// `i32::MAX` as an atomic counter does.
pub struct EntityIds {
    next: i32,
}

impl EntityIds {
    /// The id the next call of `next_id` hands out.
    pub closed spec fn upcoming(&self) -> i32 {
        self.next
    }

    /// A counter that starts at 0.
    pub fn new() -> (ids: EntityIds)
        ensures
            ids.upcoming() == 0,
    {
        EntityIds { next: 0 }
    }

    /// Hands out the next id.
    pub fn next_id(&mut self) -> (id: i32)
        ensures
            id == old(self).upcoming(),
            final(self).upcoming() == old(self).upcoming().wrapping_add(1),
    {
        let id = self.next;
        self.next = self.next.wrapping_add(1);
        id
    }
}

/// Something in the world with an id and a position.
pub struct Entity {
    pub id: i32,
    pub position: Position,
}

impl Entity {
    /// An entity at `position` with the next id from `ids`.
    pub fn new(position: Position, ids: &mut EntityIds) -> (e: Entity)
        ensures
            e.id == old(ids).upcoming(),
            e.position == position,
            final(ids).upcoming() == old(ids).upcoming().wrapping_add(1),
    {
        Entity { id: ids.next_id(), position }
    }
}

impl Identified for Entity {
    open spec fn spec_id(&self) -> i32 {
        self.id
    }

    fn id(&self) -> (r: i32) {
        self.id
    }
}

/// Entries found by their ids. An entry is registered under the id it
/// reports; registering another entry with the same id replaces it.
pub struct EntityRegistry<T: Identified> {
    entries: HashMap<i32, Arc<T>>,
}

impl<T: Identified> EntityRegistry<T> {
    #[verifier::type_invariant]
    closed spec fn inv(&self) -> bool {
        forall|id: i32|
            #[trigger] self.entries@.contains_key(id) ==> self.entries@[id].spec_id() == id
    }

    /// The registered entries, by id.
    pub closed spec fn entries(&self) -> Map<i32, T> {
        Map::new(|id: i32| self.entries@.contains_key(id), |id: i32| *self.entries@[id])
    }

    /// An empty registry.
    pub fn new() -> (r: EntityRegistry<T>)
        ensures
            r.entries() == Map::<i32, T>::empty(),
    {
        let r = EntityRegistry { entries: HashMap::new() };
        assert(r.entries() =~= Map::<i32, T>::empty());
        r
    }

    /// Registers `entry` under its id.
    pub fn register(&mut self, entry: Arc<T>)
        ensures
            final(self).entries() == old(self).entries().insert(entry.spec_id(), *entry),
    {
        proof { use_type_invariant(&*self); }
        let id = entry.id();
        let mut entries: HashMap<i32, Arc<T>> = HashMap::new();
        std::mem::swap(&mut entries, &mut self.entries);
        entries.insert(id, entry);
        std::mem::swap(&mut entries, &mut self.entries);
        assert(self.entries() =~= old(self).entries().insert(id, *entry));
    }

    /// Removes the entry registered under `id`, if any.
    pub fn unregister(&mut self, id: i32)
        ensures
            final(self).entries() == old(self).entries().remove(id),
    {
        proof { use_type_invariant(&*self); }
        let mut entries: HashMap<i32, Arc<T>> = HashMap::new();
        std::mem::swap(&mut entries, &mut self.entries);
        entries.remove(&id);
        std::mem::swap(&mut entries, &mut self.entries);
        assert(self.entries() =~= old(self).entries().remove(id));
    }

    /// The entry registered under `id`, if any.
    pub fn get(&self, id: i32) -> (r: Option<Arc<T>>)
        ensures
            match r {
                Some(e) => self.entries().contains_key(id) && *e == self.entries()[id]
                    && e.spec_id() == id,
                None => !self.entries().contains_key(id),
            },
    {
        proof { use_type_invariant(self); }
        match self.entries.get(&id) {
            Some(e) => Some(arc_clone(e)),
            None => None,
        }
    }
}

impl<T: Identified> EntityRegistry<T> {
    /// Calls `f` on each registered entry, once each, in no particular
    /// order.
    pub fn for_each<F: Fn(&Arc<T>)>(&self, f: F)
        requires
            forall|e: &Arc<T>| #[trigger] f.requires((e,)),
    {
        for e in it: self.entries.values()
            invariant
                forall|e: &Arc<T>| #[trigger] f.requires((e,)),
        {
            f(e);
        }
    }
}

/// Another pointer to the same value. Calls `Arc::clone`, which std
/// documents as making a new pointer to the same allocation; the contract
/// claims only that the value pointed to is the same.
#[verifier::external_body]
fn arc_clone<T>(a: &Arc<T>) -> (r: Arc<T>)
    ensures
        *r == **a,
{
    a.clone()
}

/// The id handed out after `n` earlier ones, by a counter that started at
/// `start`.
pub open spec fn nth_id(start: i32, n: nat) -> i32
    decreases n,
{
    if n == 0 {
        start
    } else {
        nth_id(start, (n - 1) as nat).wrapping_add(1)
    }
}

proof fn lemma_nth_id_value(start: i32, n: nat)
    ensures
        nth_id(start, n) as int == crate::codec::signed(
            (crate::codec::twos(start as int, 0x1_0000_0000) + n) % 0x1_0000_0000,
            0x1_0000_0000,
        ),
    decreases n,
{
    if n > 0 {
        lemma_nth_id_value(start, (n - 1) as nat);
        let u = crate::codec::twos(start as int, 0x1_0000_0000);
        vstd::arithmetic::div_mod::lemma_add_mod_noop(u + n - 1, 1, 0x1_0000_0000);
    }
}

/// Ids are fresh: among the first 2^32 ids a counter hands out, no two are
/// equal.
pub proof fn law_ids_distinct(start: i32, i: nat, j: nat)
    requires
        i < j < 0x1_0000_0000,
    ensures
        nth_id(start, i) != nth_id(start, j),
{
    lemma_nth_id_value(start, i);
    lemma_nth_id_value(start, j);
    let u = crate::codec::twos(start as int, 0x1_0000_0000);
    if (u + i) % 0x1_0000_0000 == (u + j) % 0x1_0000_0000 {
        vstd::arithmetic::div_mod::lemma_mod_equivalence(u + j, u + i, 0x1_0000_0000);
        vstd::arithmetic::div_mod::lemma_small_mod((j - i) as nat, 0x1_0000_0000);
    }
}

/// What a registry finds by id after a change: after registering an
/// entry, that entry under its own id; after unregistering an id, nothing
/// under it; and under every other id, what it found before.
pub proof fn law_registry_lookup<T: Identified>(
    entries: Map<i32, T>,
    entry: T,
    id: i32,
    other: i32,
)
    requires
        other != entry.spec_id(),
        other != id,
    ensures
        ({
            let registered = entries.insert(entry.spec_id(), entry);
            &&& registered.contains_key(entry.spec_id())
            &&& registered[entry.spec_id()] == entry
            &&& registered.contains_key(other) == entries.contains_key(other)
            &&& entries.contains_key(other) ==> registered[other] == entries[other]
        }),
        ({
            let unregistered = entries.remove(id);
            &&& !unregistered.contains_key(id)
            &&& unregistered.contains_key(other) == entries.contains_key(other)
            &&& entries.contains_key(other) ==> unregistered[other] == entries[other]
        }),
{
}

} // verus!
