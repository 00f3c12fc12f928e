use std::io::Read;

use betacraft::config::ServerConfig;
use betacraft::connection::{join_message, leave_message, write_login_response, write_spawn_chunks};
use betacraft::position::Position;
use betacraft::reader::PacketReader;
use betacraft::world::{FlatGenerator, World};
use betacraft::writer::PacketWriter;

fn inflate(data: &[u8]) -> Vec<u8> {
    let mut out = Vec::new();
    flate2::read::ZlibDecoder::new(data).read_to_end(&mut out).unwrap();
    out
}

/// Walks the pre-chunk / chunk pairs in `bytes`, giving each chunk's
/// coordinates and its decompressed arrays.
fn chunks_in(bytes: &[u8]) -> Vec<((i32, i32), Vec<u8>)> {
    let mut r = PacketReader::new(bytes);
    let mut out = Vec::new();
    while r.remaining() > 0 {
        assert_eq!(r.read_u8(), Ok(0x32));
        let cx = r.read_i32().unwrap();
        let cz = r.read_i32().unwrap();
        assert_eq!(r.read_bool(), Ok(true));
        assert_eq!(r.read_u8(), Ok(0x33));
        assert_eq!(r.read_i32(), Ok(cx * 16));
        assert_eq!(r.read_i16(), Ok(0));
        assert_eq!(r.read_i32(), Ok(cz * 16));
        assert_eq!(r.read_u8(), Ok(15));
        assert_eq!(r.read_u8(), Ok(127));
        assert_eq!(r.read_u8(), Ok(15));
        let n = r.read_i32().unwrap() as usize;
        let start = r.position();
        for _ in 0..n {
            r.read_u8().unwrap();
        }
        out.push(((cx, cz), inflate(&bytes[start..start + n])));
    }
    out
}

#[test]
fn spawn_chunks_go_out_in_order() {
    let mut world = World::new(FlatGenerator { height: 4, block: 1 });
    let mut w = PacketWriter::new();
    write_spawn_chunks(&mut world, 1, &mut w).unwrap();
    let sent = chunks_in(&w.flush());
    let coords: Vec<(i32, i32)> = sent.iter().map(|(c, _)| *c).collect();
    assert_eq!(
        coords,
        vec![(-1, -1), (-1, 0), (-1, 1), (0, -1), (0, 0), (0, 1), (1, -1), (1, 0), (1, 1)]
    );
    for (_, raw) in &sent {
        assert_eq!(raw[3], 1);
        assert_eq!(raw[4], 0);
    }
    assert_eq!(world.chunk(1, -1).block(0, 3, 0), 1);
}

#[test]
fn a_negative_radius_sends_nothing() {
    let mut world = World::new(FlatGenerator { height: 4, block: 1 });
    let mut w = PacketWriter::new();
    write_spawn_chunks(&mut world, -1, &mut w).unwrap();
    assert!(w.flush().is_empty());
    write_spawn_chunks(&mut world, i32::MIN + 1, &mut w).unwrap();
    write_spawn_chunks(&mut world, -0x1000_0000, &mut w).unwrap();
    assert!(w.flush().is_empty());
    write_spawn_chunks(&mut world, 0, &mut w).unwrap();
    assert_eq!(chunks_in(&w.flush()).len(), 1);
}

#[test]
fn the_login_response() {
    let mut world = World::new(FlatGenerator { height: 4, block: 1 });
    let mut w = PacketWriter::new();
    let spawn = Position {
        x: 0.0f64.to_bits(),
        y: 5.0f64.to_bits(),
        z: 0.0f64.to_bits(),
        yaw: 0,
        pitch: 0,
        on_ground: false,
    };
    write_login_response(&mut world, 9, spawn, (5.0f64 + 1.62).to_bits(), &mut w).unwrap();
    let bytes = w.flush();
    assert_eq!(&bytes[..5], &[0x01, 0, 0, 0, 9]);
    let login_len = 1 + 4 + 2 + 8 + 1;
    let tail_len = 1 + 8 * 4 + 4 * 2 + 1 + 13;
    let chunks = chunks_in(&bytes[login_len..bytes.len() - tail_len]);
    assert_eq!(chunks.len(), 121);
    assert_eq!(chunks[0].0, (-5, -5));
    assert_eq!(chunks[120].0, (5, 5));
    let tail = &bytes[bytes.len() - tail_len..];
    assert_eq!(tail[0], 0x0D);
    assert_eq!(&tail[9..17], &(5.0f64 + 1.62).to_be_bytes());
    assert_eq!(&tail[tail_len - 13..], &[0x06, 0, 0, 0, 0, 0, 0, 0, 5, 0, 0, 0, 0]);
}

#[test]
fn default_config() {
    let c = ServerConfig::default();
    assert_eq!(c.bind_addr, "0.0.0.0:25565");
    assert_eq!(c.readwrite_timeout_secs, 30);
}

#[test]
fn join_and_leave_lines() {
    assert_eq!(join_message("Steve"), "§eSteve joined");
    assert_eq!(leave_message("Alex"), "§eAlex left");
    assert_eq!(join_message(""), "§e joined");
}
