use betacraft::clientbound::ClientboundPacket;
use betacraft::position::Position;
use betacraft::world::Chunk;
use betacraft::writer::{PacketWriter, WriteError};

fn wire(p: &ClientboundPacket) -> Result<Vec<u8>, (WriteError, Vec<u8>)> {
    let mut w = PacketWriter::new();
    match p.write(&mut w) {
        Ok(()) => Ok(w.flush()),
        Err(e) => Err((e, w.flush())),
    }
}

#[test]
fn keep_alive_is_one_byte() {
    assert_eq!(wire(&ClientboundPacket::KeepAlive).unwrap(), vec![0x00]);
}

#[test]
fn login_reply_layout() {
    let p = ClientboundPacket::Login { entity_id: 1, world_seed: 2, dimension: -1 };
    assert_eq!(
        wire(&p).unwrap(),
        vec![0x01, 0, 0, 0, 1, 0, 0, 0, 0, 0, 0, 0, 0, 0, 2, 0xFF]
    );
}

#[test]
fn chat_and_kick_layouts() {
    let p = ClientboundPacket::ChatMessage { message: "ok".to_string() };
    assert_eq!(wire(&p).unwrap(), vec![0x03, 0, 2, 0, b'o', 0, b'k']);
    let p = ClientboundPacket::Kick { reason: "x".to_string() };
    assert_eq!(wire(&p).unwrap(), vec![0xFF, 0, 1, 0, b'x']);
}

#[test]
fn a_string_too_long_fails_after_the_fields_before_it() {
    let long = "a".repeat(40000);
    let p = ClientboundPacket::ChatMessage { message: long.clone() };
    assert_eq!(wire(&p).unwrap_err(), (WriteError::StringTooLong, vec![0x03]));
    let p = ClientboundPacket::Kick { reason: long.clone() };
    assert_eq!(wire(&p).unwrap_err(), (WriteError::StringTooLong, vec![0xFF]));
    let p = ClientboundPacket::SpawnPlayer {
        entity_id: 5,
        username: long,
        x: 0,
        y: 0,
        z: 0,
        yaw: 0,
        pitch: 0,
        current_item: 0,
    };
    assert_eq!(wire(&p).unwrap_err(), (WriteError::StringTooLong, vec![0x14, 0, 0, 0, 5]));
}

#[test]
fn spawn_position_layout() {
    let p = ClientboundPacket::SetSpawnPosition { x: 0, y: 5, z: -1 };
    assert_eq!(
        wire(&p).unwrap(),
        vec![0x06, 0, 0, 0, 0, 0, 0, 0, 5, 0xFF, 0xFF, 0xFF, 0xFF]
    );
}

#[test]
fn position_look_layout() {
    let pos = Position {
        x: 1.0f64.to_bits(),
        y: 5.0f64.to_bits(),
        z: (-2.5f64).to_bits(),
        yaw: 90.0f32.to_bits(),
        pitch: 0.0f32.to_bits(),
        on_ground: true,
    };
    let p = ClientboundPacket::PlayerPositionLook { position: pos, stance: 6.62f64.to_bits() };
    let mut want = vec![0x0D];
    want.extend_from_slice(&1.0f64.to_be_bytes());
    want.extend_from_slice(&6.62f64.to_be_bytes());
    want.extend_from_slice(&5.0f64.to_be_bytes());
    want.extend_from_slice(&(-2.5f64).to_be_bytes());
    want.extend_from_slice(&90.0f32.to_be_bytes());
    want.extend_from_slice(&0.0f32.to_be_bytes());
    want.push(1);
    assert_eq!(wire(&p).unwrap(), want);
}

#[test]
fn entity_packets_layouts() {
    let p = ClientboundPacket::SpawnPlayer {
        entity_id: 3,
        username: "A".to_string(),
        x: 32,
        y: 160,
        z: -32,
        yaw: 64,
        pitch: 0,
        current_item: 0,
    };
    assert_eq!(
        wire(&p).unwrap(),
        vec![
            0x14, 0, 0, 0, 3, 0, 1, 0, b'A', 0, 0, 0, 32, 0, 0, 0, 160, 0xFF, 0xFF, 0xFF, 0xE0,
            64, 0, 0, 0
        ]
    );
    let p = ClientboundPacket::DestroyEntity { entity_id: 3 };
    assert_eq!(wire(&p).unwrap(), vec![0x1D, 0, 0, 0, 3]);
    let p = ClientboundPacket::EntityTeleport { entity_id: 3, x: 1, y: 2, z: 3, yaw: 4, pitch: 5 };
    assert_eq!(
        wire(&p).unwrap(),
        vec![0x22, 0, 0, 0, 3, 0, 0, 0, 1, 0, 0, 0, 2, 0, 0, 0, 3, 4, 5]
    );
    let p = ClientboundPacket::PlayerCrouch { entity_id: 3, sneaking: true };
    assert_eq!(wire(&p).unwrap(), vec![0x28, 0, 0, 0, 3, 0x00, 0x02, 0x7F]);
    let p = ClientboundPacket::PlayerCrouch { entity_id: 3, sneaking: false };
    assert_eq!(wire(&p).unwrap(), vec![0x28, 0, 0, 0, 3, 0x00, 0x00, 0x7F]);
}

#[test]
fn chunk_packets_layouts() {
    let p = ClientboundPacket::PreChunk { chunk_x: -1, chunk_z: 2, mode: true };
    assert_eq!(wire(&p).unwrap(), vec![0x32, 0xFF, 0xFF, 0xFF, 0xFF, 0, 0, 0, 2, 1]);
    let p = ClientboundPacket::Chunk { chunk_x: -1, chunk_z: 2, data: vec![9, 8, 7] };
    assert_eq!(
        wire(&p).unwrap(),
        vec![
            0x33, 0xFF, 0xFF, 0xFF, 0xF0, 0, 0, 0, 0, 0, 32, 15, 127, 15, 0, 0, 0, 3, 9, 8, 7
        ]
    );
}

#[test]
fn a_chunk_packet_carries_the_compressed_chunk() {
    let c = Chunk::new(4, -2);
    let p = ClientboundPacket::from_chunk(&c).unwrap();
    match p {
        ClientboundPacket::Chunk { chunk_x, chunk_z, data } => {
            assert_eq!((chunk_x, chunk_z), (4, -2));
            assert_eq!(data, c.compressed().unwrap());
        }
        _ => panic!("not a chunk packet"),
    }
}
