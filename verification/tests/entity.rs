use std::sync::Arc;

use betacraft::entity::{Entity, EntityIds, EntityRegistry, Identified};
use betacraft::position::Position;

fn origin() -> Position {
    Position { x: 0, y: 0, z: 0, yaw: 0, pitch: 0, on_ground: false }
}

#[test]
fn ids_count_up_from_zero() {
    let mut ids = EntityIds::new();
    assert_eq!(ids.next_id(), 0);
    assert_eq!(ids.next_id(), 1);
    let e = Entity::new(origin(), &mut ids);
    assert_eq!(e.id, 2);
    assert_eq!(e.id(), 2);
    assert_eq!(ids.next_id(), 3);
}

#[test]
fn a_registry_finds_entries_by_id() {
    let mut ids = EntityIds::new();
    let mut reg: EntityRegistry<Entity> = EntityRegistry::new();
    let a = Arc::new(Entity::new(origin(), &mut ids));
    let b = Arc::new(Entity::new(origin(), &mut ids));
    reg.register(a.clone());
    reg.register(b.clone());
    assert_eq!(reg.get(0).unwrap().id, 0);
    assert_eq!(reg.get(1).unwrap().id, 1);
    assert!(reg.get(2).is_none());
    reg.unregister(0);
    assert!(reg.get(0).is_none());
    assert_eq!(reg.get(1).unwrap().id, 1);
    reg.unregister(7);
    assert_eq!(reg.get(1).unwrap().id, 1);
}

#[test]
fn registering_an_id_again_replaces_the_entry() {
    let mut reg: EntityRegistry<Entity> = EntityRegistry::new();
    let moved = Position { x: 5, ..origin() };
    reg.register(Arc::new(Entity { id: 4, position: origin() }));
    reg.register(Arc::new(Entity { id: 4, position: moved }));
    assert_eq!(reg.get(4).unwrap().position, moved);
}

#[test]
fn for_each_visits_every_entry() {
    let mut reg: EntityRegistry<Entity> = EntityRegistry::new();
    for id in [3, 1, 2] {
        reg.register(Arc::new(Entity { id, position: origin() }));
    }
    let seen = std::cell::RefCell::new(Vec::new());
    reg.for_each(|e| seen.borrow_mut().push(e.id));
    let mut seen = seen.into_inner();
    seen.sort();
    assert_eq!(seen, vec![1, 2, 3]);
}

#[test]
fn positions_change_look_and_ground() {
    let p = Position { x: 1, y: 2, z: 3, yaw: 4, pitch: 5, on_ground: false };
    assert_eq!(p.with_look(9, 8), Position { yaw: 9, pitch: 8, ..p });
    assert_eq!(p.with_ground(true), Position { on_ground: true, ..p });
}

#[test]
fn chunk_coordinates_round_down() {
    assert_eq!(Position::chunk_coord(0), 0);
    assert_eq!(Position::chunk_coord(15), 0);
    assert_eq!(Position::chunk_coord(16), 1);
    assert_eq!(Position::chunk_coord(-1), -1);
    assert_eq!(Position::chunk_coord(-16), -1);
    assert_eq!(Position::chunk_coord(-17), -2);
    assert_eq!(Position::chunk_coord(i32::MIN), i32::MIN / 16);
    assert_eq!(Position::chunk_coord(i32::MAX), i32::MAX / 16);
}
