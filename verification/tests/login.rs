use betacraft::clientbound::ClientboundPacket;
use betacraft::reader::{PacketReader, ReadError};
use betacraft::serverbound::{read_handshake, read_login};
use betacraft::writer::PacketWriter;

#[test]
fn reads_a_handshake() {
    let bytes = [0x02, 0, 5, 0, b'S', 0, b't', 0, b'e', 0, b'v', 0, b'e', 0xAA];
    let mut r = PacketReader::new(&bytes);
    let h = read_handshake(&mut r).unwrap();
    assert_eq!(h.username, "Steve");
    assert_eq!(r.position(), 13);
}

#[test]
fn refuses_a_handshake_with_another_id() {
    let bytes = [0x01, 0, 0];
    let mut r = PacketReader::new(&bytes);
    assert_eq!(
        read_handshake(&mut r).unwrap_err(),
        ReadError::UnexpectedPacket { expected: 0x02, found: 0x01 }
    );
    assert_eq!(r.position(), 1);
    assert_eq!(r.remaining(), 2);
    let empty: [u8; 0] = [];
    let mut r = PacketReader::new(&empty);
    assert_eq!(read_handshake(&mut r).unwrap_err(), ReadError::UnexpectedEof);
}

#[test]
fn a_partial_handshake_consumes_nothing() {
    let bytes = [0x02, 0, 5, 0, b'S'];
    let mut r = PacketReader::new(&bytes);
    assert_eq!(read_handshake(&mut r).unwrap_err(), ReadError::UnexpectedEof);
    assert_eq!(r.position(), 0);
}

#[test]
fn reads_a_login() {
    let mut w = PacketWriter::new();
    w.write_u8(0x01);
    w.write_i32(14);
    w.write_string("Alex").unwrap();
    w.write_i64(-5);
    w.write_u8(0xFF);
    let bytes = w.flush();
    let mut r = PacketReader::new(&bytes);
    let l = read_login(&mut r).unwrap();
    assert_eq!(l.protocol_version, 14);
    assert_eq!(l.username, "Alex");
    assert_eq!(l.world_seed, -5);
    assert_eq!(l.dimension, -1);
    assert_eq!(r.remaining(), 0);
}

#[test]
fn a_truncated_login_consumes_nothing() {
    let bytes = [0x01, 0, 0, 0, 14, 0, 0, 0, 0];
    let mut r = PacketReader::new(&bytes);
    assert_eq!(read_login(&mut r).unwrap_err(), ReadError::UnexpectedEof);
    assert_eq!(r.position(), 0);
    let bytes = [0x02];
    let mut r = PacketReader::new(&bytes);
    assert_eq!(
        read_login(&mut r).unwrap_err(),
        ReadError::UnexpectedPacket { expected: 0x01, found: 0x02 }
    );
    assert_eq!(r.position(), 1);
    let bytes = [0x02, 0, 0];
    let mut r = PacketReader::new(&bytes);
    assert!(read_login(&mut r).is_err());
    assert_eq!(r.remaining(), 2);
}

#[test]
fn an_invalid_name_is_consumed() {
    let bytes = [0x02, 0, 1, 0xD8, 0x00, 0x07];
    let mut r = PacketReader::new(&bytes);
    assert_eq!(read_handshake(&mut r).unwrap_err(), ReadError::InvalidUtf16);
    assert_eq!(r.position(), 5);
    let bytes = [0x01, 0, 0, 0, 14, 0, 1, 0xDF, 0xFF, 0, 0];
    let mut r = PacketReader::new(&bytes);
    assert_eq!(read_login(&mut r).unwrap_err(), ReadError::InvalidUtf16);
    assert_eq!(r.position(), 9);
}

#[test]
fn the_handshake_reply_reads_back() {
    let mut w = PacketWriter::new();
    ClientboundPacket::Handshake.write(&mut w).unwrap();
    let bytes = w.flush();
    assert_eq!(bytes, vec![0x02, 0, 1, 0, b'-']);
    let mut r = PacketReader::new(&bytes);
    assert_eq!(read_handshake(&mut r).unwrap().username, "-");
}

#[test]
fn the_login_reply_reads_back() {
    let mut w = PacketWriter::new();
    ClientboundPacket::Login { entity_id: 42, world_seed: 1234, dimension: -1 }
        .write(&mut w)
        .unwrap();
    let bytes = w.flush();
    let mut r = PacketReader::new(&bytes);
    let l = read_login(&mut r).unwrap();
    assert_eq!(l.protocol_version, 42);
    assert_eq!(l.username, "");
    assert_eq!(l.world_seed, 1234);
    assert_eq!(l.dimension, -1);
    assert_eq!(r.remaining(), 0);
}
