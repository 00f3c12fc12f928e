use betacraft::clientbound::ClientboundPacket;
use betacraft::handlers::{
    BlockPlacementPacket, ChatMessagePacket, ConnectionAction, DisconnectPacket, Effect,
    EntityActionPacket, ItemStack, KeepAlivePacket, PacketKind, PlayerDiggingPacket,
    PlayerFlyingPacket, PlayerLookPacket, PlayerPosLookPacket, PlayerPositionPacket, PlayerState,
    UseEntityPacket, WindowClickPacket,
};
use betacraft::packet_registry::{registry, PacketRegistry};
use betacraft::position::Position;
use betacraft::reader::{PacketReader, ReadError};
use betacraft::writer::PacketWriter;

fn player() -> PlayerState {
    PlayerState {
        id: 7,
        username: "Steve".to_string(),
        position: Position { x: 1, y: 2, z: 3, yaw: 4, pitch: 5, on_ground: false },
    }
}

fn bytes(f: impl FnOnce(&mut PacketWriter)) -> Vec<u8> {
    let mut w = PacketWriter::new();
    f(&mut w);
    w.flush()
}

#[test]
fn reads_fixed_packets() {
    let b = [1u8];
    let mut r = PacketReader::new(&b);
    assert_eq!(PlayerFlyingPacket::read(&mut r), Ok(PlayerFlyingPacket { on_ground: true }));
    let b = [2, 0, 0, 0, 9, 64, 0, 0, 0, 8, 1];
    let mut r = PacketReader::new(&b);
    assert_eq!(
        PlayerDiggingPacket::read(&mut r),
        Ok(PlayerDiggingPacket { status: 2, x: 9, y: 64, z: 8, face: 1 })
    );
    let b = [0, 0, 0, 1, 0, 0, 0, 2, 0];
    let mut r = PacketReader::new(&b);
    assert_eq!(
        UseEntityPacket::read(&mut r),
        Ok(UseEntityPacket { user_id: 1, target_id: 2, left_click: false })
    );
    let empty: [u8; 0] = [];
    let mut r = PacketReader::new(&empty);
    assert_eq!(KeepAlivePacket::read(&mut r), Ok(KeepAlivePacket));
}

#[test]
fn a_short_fixed_packet_consumes_nothing() {
    let b = [2, 0, 0, 0, 9, 64];
    let mut r = PacketReader::new(&b);
    assert_eq!(PlayerDiggingPacket::read(&mut r), Err(ReadError::UnexpectedEof));
    assert_eq!(r.position(), 0);
}

#[test]
fn reads_movement_packets_as_bit_patterns() {
    let b = bytes(|w| {
        w.write_f64(1.5f64.to_bits());
        w.write_f64(70.0f64.to_bits());
        w.write_f64(71.62f64.to_bits());
        w.write_f64((-3.0f64).to_bits());
        w.write_bool(true);
    });
    let mut r = PacketReader::new(&b);
    let p = PlayerPositionPacket::read(&mut r).unwrap();
    assert_eq!(f64::from_bits(p.x), 1.5);
    assert_eq!(f64::from_bits(p.y), 70.0);
    assert_eq!(f64::from_bits(p.stance), 71.62);
    assert_eq!(f64::from_bits(p.z), -3.0);
    assert!(p.on_ground);
    let b = bytes(|w| {
        w.write_f32(45.0f32.to_bits());
        w.write_f32((-10.0f32).to_bits());
        w.write_bool(false);
    });
    let mut r = PacketReader::new(&b);
    let p = PlayerLookPacket::read(&mut r).unwrap();
    assert_eq!(f32::from_bits(p.yaw), 45.0);
    assert_eq!(f32::from_bits(p.pitch), -10.0);
}

#[test]
fn block_placement_item_follows_only_a_non_negative_id() {
    let with = [0, 0, 0, 1, 64, 0, 0, 0, 2, 3, 0, 5, 9, 0, 1];
    let mut r = PacketReader::new(&with);
    let p = BlockPlacementPacket::read(&mut r).unwrap();
    assert_eq!(p.item, Some(ItemStack { id: 5, count: 9, damage: 1 }));
    assert_eq!(r.remaining(), 0);
    let without = [0, 0, 0, 1, 64, 0, 0, 0, 2, 3, 0xFF, 0xFF, 9];
    let mut r = PacketReader::new(&without);
    let p = BlockPlacementPacket::read(&mut r).unwrap();
    assert_eq!((p.x, p.y, p.z, p.direction, p.item), (1, 64, 2, 3, None));
    assert_eq!(r.remaining(), 1);
    let short = [0, 0, 0, 1, 64, 0, 0, 0, 2, 3, 0, 5, 9];
    let mut r = PacketReader::new(&short);
    assert_eq!(BlockPlacementPacket::read(&mut r), Err(ReadError::UnexpectedEof));
    assert_eq!(r.position(), 0);
}

#[test]
fn window_click_item_follows_unless_the_id_is_minus_one() {
    let with = [1, 0, 36, 0, 0, 2, 1, 0xFF, 0xFE, 3, 0, 0];
    let mut r = PacketReader::new(&with);
    let p = WindowClickPacket::read(&mut r).unwrap();
    assert_eq!(
        p,
        WindowClickPacket {
            window_id: 1,
            slot: 36,
            rightclick: 0,
            action: 2,
            shift: true,
            item: Some(ItemStack { id: -2, count: 3, damage: 0 }),
        }
    );
    let without = [1, 0, 36, 0, 0, 2, 0, 0xFF, 0xFF];
    let mut r = PacketReader::new(&without);
    assert_eq!(WindowClickPacket::read(&mut r).unwrap().item, None);
    assert_eq!(r.remaining(), 0);
}

#[test]
fn chat_is_said_to_everyone() {
    let (action, effect) =
        ChatMessagePacket { message: "hello".to_string() }.handle(&player());
    assert_eq!(action, ConnectionAction::Continue);
    match effect {
        Effect::Chat(line) => assert_eq!(line, "<Steve> hello"),
        other => panic!("unexpected {other:?}"),
    }
}

#[test]
fn a_slash_makes_a_command() {
    let (action, effect) =
        ChatMessagePacket { message: "/time set 0".to_string() }.handle(&player());
    assert_eq!(action, ConnectionAction::Continue);
    match effect {
        Effect::Command(c) => assert_eq!(c, "time set 0"),
        other => panic!("unexpected {other:?}"),
    }
    match (ChatMessagePacket { message: String::new() }).handle(&player()).1 {
        Effect::Chat(line) => assert_eq!(line, "<Steve> "),
        other => panic!("unexpected {other:?}"),
    }
}

#[test]
fn movement_updates_the_position() {
    let p = player();
    match (PlayerFlyingPacket { on_ground: true }).handle(&p).1 {
        Effect::SetPosition(pos) => assert_eq!(pos, Position { on_ground: true, ..p.position }),
        other => panic!("unexpected {other:?}"),
    }
    let packet =
        PlayerPositionPacket { x: 10, y: 20, stance: 21, z: 30, on_ground: true };
    match packet.handle(&p).1 {
        Effect::UpdatePosition(pos) => assert_eq!(
            pos,
            Position { x: 10, y: 20, z: 30, yaw: 4, pitch: 5, on_ground: true }
        ),
        other => panic!("unexpected {other:?}"),
    }
    match (PlayerLookPacket { yaw: 8, pitch: 9, on_ground: true }).handle(&p).1 {
        Effect::UpdatePosition(pos) => assert_eq!(
            pos,
            Position { x: 1, y: 2, z: 3, yaw: 8, pitch: 9, on_ground: true }
        ),
        other => panic!("unexpected {other:?}"),
    }
    let packet = PlayerPosLookPacket {
        x: 11,
        y: 12,
        stance: 13,
        z: 14,
        yaw: 15,
        pitch: 16,
        on_ground: false,
    };
    match packet.handle(&p).1 {
        Effect::UpdatePosition(pos) => assert_eq!(
            pos,
            Position { x: 11, y: 12, z: 14, yaw: 15, pitch: 16, on_ground: false }
        ),
        other => panic!("unexpected {other:?}"),
    }
}

#[test]
fn crouching_is_shown_to_the_others() {
    for (action, sneaking) in [(1u8, true), (2u8, false)] {
        match (EntityActionPacket { entity_id: 0, action }).handle(&player()).1 {
            Effect::BroadcastExcept { except, packet } => {
                assert_eq!(except, 7);
                match packet {
                    ClientboundPacket::PlayerCrouch { entity_id, sneaking: s } => {
                        assert_eq!((entity_id, s), (7, sneaking))
                    }
                    other => panic!("unexpected {other:?}"),
                }
            }
            other => panic!("unexpected {other:?}"),
        }
    }
    match (EntityActionPacket { entity_id: 0, action: 3 }).handle(&player()).1 {
        Effect::Nothing => {}
        other => panic!("unexpected {other:?}"),
    }
}

#[test]
fn disconnect_ends_the_connection() {
    let (action, effect) =
        DisconnectPacket { reason: "Quitting".to_string() }.handle(&player());
    assert_eq!(action, ConnectionAction::Disconnect);
    match effect {
        Effect::Disconnected(r) => assert_eq!(r, "Quitting"),
        other => panic!("unexpected {other:?}"),
    }
}

#[test]
fn the_standard_registry_knows_sixteen_packets() {
    let r = registry();
    let known = [0x00u8, 0x0A, 0x0B, 0x0C, 0x0D, 0x03, 0x12, 0x65, 0x0E, 0x0F, 0x13, 0x07, 0x10,
        0x66, 0x6A, 0xFF];
    for id in 0..=255u8 {
        match r.kind(id) {
            Some(k) => {
                assert!(known.contains(&id));
                assert_eq!(k.id(), id);
            }
            None => assert!(!known.contains(&id)),
        }
    }
    assert_eq!(r.kind(0x03), Some(PacketKind::ChatMessage));
}

#[test]
fn an_unknown_packet_is_refused() {
    let r = registry();
    let b = [1, 2, 3];
    let mut reader = PacketReader::new(&b);
    match r.handle(0x99, &mut reader, &player()) {
        Err(e) => assert_eq!(e, ReadError::UnhandledPacket(0x99)),
        Ok(_) => panic!("handled an unknown packet"),
    }
    assert_eq!(reader.position(), 0);
}

#[test]
fn the_registry_dispatches_by_id() {
    let r = registry();
    let b = bytes(|w| w.write_string("hi all").unwrap());
    let mut reader = PacketReader::new(&b);
    match r.handle(0x03, &mut reader, &player()) {
        Ok((ConnectionAction::Continue, Effect::Chat(line))) => {
            assert_eq!(line, "<Steve> hi all")
        }
        Ok(other) => panic!("unexpected {other:?}"),
        Err(e) => panic!("unexpected {e:?}"),
    }
    assert_eq!(reader.remaining(), 0);
    let b = [0u8, 0, 0, 7, 1];
    let mut reader = PacketReader::new(&b);
    match r.handle(0x13, &mut reader, &player()) {
        Ok((ConnectionAction::Continue, Effect::BroadcastExcept { except: 7, .. })) => {}
        Ok(other) => panic!("unexpected {other:?}"),
        Err(e) => panic!("unexpected {e:?}"),
    }
    let b = [0u8, 0, 0];
    let mut reader = PacketReader::new(&b);
    match r.handle(0x13, &mut reader, &player()) {
        Err(ReadError::UnexpectedEof) => assert_eq!(reader.position(), 0),
        other => panic!("unexpected {other:?}"),
    }
}

#[test]
fn registering_replaces_and_adds() {
    let mut r = PacketRegistry::new();
    assert_eq!(r.kind(0xFF), None);
    r.register(PacketKind::Disconnect);
    assert_eq!(r.kind(0xFF), Some(PacketKind::Disconnect));
    assert_eq!(r.kind(0x00), None);
}

#[test]
fn an_invalid_chat_message_is_consumed() {
    let r = registry();
    let b = [0u8, 1, 0xD8, 0x00, 0x00];
    let mut reader = PacketReader::new(&b);
    match r.handle(0x03, &mut reader, &player()) {
        Err(ReadError::InvalidUtf16) => assert_eq!(reader.position(), 4),
        other => panic!("unexpected {other:?}"),
    }
}
