use betacraft::reader::{PacketReader, ReadError};
use betacraft::writer::{PacketWriter, WriteError};

fn written(f: impl FnOnce(&mut PacketWriter)) -> Vec<u8> {
    let mut w = PacketWriter::new();
    f(&mut w);
    w.flush()
}

#[test]
fn writes_integers_big_endian() {
    assert_eq!(written(|w| w.write_u8(0xAB)), vec![0xAB]);
    assert_eq!(written(|w| w.write_bool(true)), vec![1]);
    assert_eq!(written(|w| w.write_bool(false)), vec![0]);
    assert_eq!(written(|w| w.write_i16(-2)), vec![0xFF, 0xFE]);
    assert_eq!(written(|w| w.write_i16(0x1234)), vec![0x12, 0x34]);
    assert_eq!(written(|w| w.write_i32(-2)), vec![0xFF, 0xFF, 0xFF, 0xFE]);
    assert_eq!(written(|w| w.write_i32(0x0102_0304)), vec![1, 2, 3, 4]);
    assert_eq!(written(|w| w.write_i64(i64::MIN)), vec![0x80, 0, 0, 0, 0, 0, 0, 0]);
    assert_eq!(
        written(|w| w.write_i64(0x0102_0304_0506_0708)),
        vec![1, 2, 3, 4, 5, 6, 7, 8]
    );
}

#[test]
fn writes_floats_as_their_bits() {
    assert_eq!(written(|w| w.write_f32(1.5f32.to_bits())), 1.5f32.to_be_bytes().to_vec());
    assert_eq!(written(|w| w.write_f64((-6.62f64).to_bits())), (-6.62f64).to_be_bytes().to_vec());
}

#[test]
fn writes_strings_as_utf16() {
    assert_eq!(written(|w| w.write_string("hi").unwrap()), vec![0, 2, 0, b'h', 0, b'i']);
    assert_eq!(written(|w| w.write_string("").unwrap()), vec![0, 0]);
    // U+00E9 is one unit; U+1F600 is a surrogate pair.
    assert_eq!(written(|w| w.write_string("é").unwrap()), vec![0, 1, 0x00, 0xE9]);
    assert_eq!(
        written(|w| w.write_string("\u{1F600}").unwrap()),
        vec![0, 2, 0xD8, 0x3D, 0xDE, 0x00]
    );
}

#[test]
fn refuses_strings_too_long() {
    let mut w = PacketWriter::new();
    w.write_u8(7);
    let long = "a".repeat(0x8000);
    assert_eq!(w.write_string(&long), Err(WriteError::StringTooLong));
    assert_eq!(w.flush(), vec![7]);
    let max = "a".repeat(0x7FFF);
    assert_eq!(w.write_string(&max), Ok(()));
    assert_eq!(w.flush().len(), 2 + 2 * 0x7FFF);
}

#[test]
fn reads_back_what_was_written() {
    let bytes = written(|w| {
        w.write_u8(9);
        w.write_i16(-300);
        w.write_i32(i32::MIN);
        w.write_i64(-1);
        w.write_bool(true);
        w.write_string("Notch \u{1F600}").unwrap();
        w.write_f32(0.25f32.to_bits());
        w.write_f64(64.5f64.to_bits());
    });
    let mut r = PacketReader::new(&bytes);
    assert_eq!(r.read_u8(), Ok(9));
    assert_eq!(r.read_i16(), Ok(-300));
    assert_eq!(r.read_i32(), Ok(i32::MIN));
    assert_eq!(r.read_i64(), Ok(-1));
    assert_eq!(r.read_bool(), Ok(true));
    assert_eq!(r.read_string(), Ok("Notch \u{1F600}".to_string()));
    assert_eq!(r.read_f32(), Ok(0.25f32.to_bits()));
    assert_eq!(r.read_f64(), Ok(64.5f64.to_bits()));
    assert_eq!(r.remaining(), 0);
    assert_eq!(r.position(), bytes.len());
}

#[test]
fn a_failed_read_consumes_nothing() {
    let bytes = [0x12, 0x34, 0x56];
    let mut r = PacketReader::new(&bytes);
    assert_eq!(r.read_i32(), Err(ReadError::UnexpectedEof));
    assert_eq!(r.position(), 0);
    assert_eq!(r.read_i16(), Ok(0x1234));
    assert_eq!(r.read_i16(), Err(ReadError::UnexpectedEof));
    assert_eq!(r.position(), 2);
    assert_eq!(r.read_u8(), Ok(0x56));
    assert_eq!(r.read_u8(), Err(ReadError::UnexpectedEof));
    assert_eq!(r.read_bool(), Err(ReadError::UnexpectedEof));
}

#[test]
fn any_nonzero_byte_is_true() {
    let bytes = [0, 1, 0x80];
    let mut r = PacketReader::new(&bytes);
    assert_eq!(r.read_bool(), Ok(false));
    assert_eq!(r.read_bool(), Ok(true));
    assert_eq!(r.read_bool(), Ok(true));
}

#[test]
fn string_reads_fail_cleanly() {
    // Length 2 but only one unit present.
    let short = [0, 2, 0, b'a'];
    let mut r = PacketReader::new(&short);
    assert_eq!(r.read_string(), Err(ReadError::UnexpectedEof));
    assert_eq!(r.position(), 0);
    // A lone low surrogate.
    let bad = [0, 1, 0xDC, 0x00, 9];
    let mut r = PacketReader::new(&bad);
    assert_eq!(r.read_string(), Err(ReadError::InvalidUtf16));
    assert_eq!(r.position(), 4);
    let one = [0];
    let mut r = PacketReader::new(&one);
    assert_eq!(r.read_string(), Err(ReadError::UnexpectedEof));
}

#[test]
fn checks_string_length_prefixes() {
    let bytes = [9, 0xFF, 0xFF, 0x00, 0x01];
    let r = PacketReader::new(&bytes);
    assert!(!r.string_length_ok_at(1));
    assert!(r.string_length_ok_at(3));
    assert!(r.string_length_ok_at(4));
    assert!(r.string_length_ok_at(10));
}
