use std::io::Read;

use betacraft::world::{Chunk, FlatGenerator, Generator, World, BLOCKS, HALF_BLOCKS};

fn inflate(data: &[u8]) -> Vec<u8> {
    let mut out = Vec::new();
    flate2::read::ZlibDecoder::new(data).read_to_end(&mut out).unwrap();
    out
}

#[test]
fn a_fresh_chunk_is_air_under_full_sky_light() {
    let c = Chunk::new(3, -4);
    assert_eq!(c.coords(), (3, -4));
    assert_eq!(c.x, 3);
    assert_eq!(c.z, -4);
    assert_eq!(c.block(0, 0, 0), 0);
    assert_eq!(c.block(15, 127, 15), 0);
    let raw = inflate(&c.compressed().unwrap());
    assert_eq!(raw.len(), BLOCKS + 3 * HALF_BLOCKS);
    assert!(raw[..BLOCKS + 2 * HALF_BLOCKS].iter().all(|b| *b == 0));
    assert!(raw[BLOCKS + 2 * HALF_BLOCKS..].iter().all(|b| *b == 0xFF));
}

#[test]
fn set_block_changes_one_block() {
    let mut c = Chunk::new(0, 0);
    c.set_block(1, 2, 3, 7);
    assert_eq!(c.block(1, 2, 3), 7);
    assert_eq!(c.block(1, 3, 3), 0);
    assert_eq!(c.block(3, 2, 1), 0);
    // Index y + z * 128 + x * 2048.
    let raw = inflate(&c.compressed().unwrap());
    assert_eq!(raw[2 + 3 * 128 + 2048], 7);
    assert_eq!(raw.iter().take(BLOCKS).filter(|b| **b != 0).count(), 1);
}

#[test]
fn compressed_is_not_the_raw_arrays() {
    let c = Chunk::new(0, 0);
    let data = c.compressed().unwrap();
    assert!(data.len() < BLOCKS);
    assert_eq!(data[0], 0x78);
}

#[test]
fn the_flat_generator_fills_layers() {
    let g = FlatGenerator { height: 4, block: 1 };
    let mut c = Chunk::new(0, 0);
    g.generate(&mut c);
    for x in 0..16 {
        for z in 0..16 {
            for y in 0..128 {
                assert_eq!(c.block(x, y, z), if y < 4 { 1 } else { 0 });
            }
        }
    }
}

#[test]
fn the_flat_generator_reaches_the_top() {
    let g = FlatGenerator { height: 128, block: 2 };
    let mut c = Chunk::new(0, 0);
    g.generate(&mut c);
    assert_eq!(c.block(15, 127, 15), 2);
    assert_eq!(c.block(0, 0, 0), 2);
}

#[test]
fn a_world_generates_each_chunk_once() {
    let mut w = World::new(FlatGenerator { height: 2, block: 3 });
    let first = w.chunk(5, -7).compressed().unwrap();
    assert_eq!(w.chunk(5, -7).coords(), (5, -7));
    assert_eq!(w.chunk(5, -7).block(4, 1, 9), 3);
    assert_eq!(w.chunk(5, -7).block(4, 2, 9), 0);
    assert_eq!(w.chunk(5, -7).compressed().unwrap(), first);
    assert_eq!(w.chunk(-7, 5).coords(), (-7, 5));
    assert_eq!(w.chunk(i32::MIN, i32::MAX).coords(), (i32::MIN, i32::MAX));
    assert_eq!(w.chunk(i32::MAX, i32::MIN).coords(), (i32::MAX, i32::MIN));
}
