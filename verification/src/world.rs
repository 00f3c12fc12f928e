//! Chunks of blocks, the generators that fill them, and the world that
//! holds every chunk generated so far.

use vstd::prelude::*;
use std::collections::HashMap;
use std::io::Write;
use flate2::write::ZlibEncoder;
use flate2::Compression;

verus! {

/// Blocks along a chunk's x axis.
pub const SIZE_X: usize = 16;

/// Blocks along a chunk's y (vertical) axis.
pub const SIZE_Y: usize = 128;

/// Blocks along a chunk's z axis.
pub const SIZE_Z: usize = 16;

/// Blocks in a chunk.
pub const BLOCKS: usize = 32768;

/// Half the blocks in a chunk: the size of each nibble array.
pub const HALF_BLOCKS: usize = 16384;

/// The index of block (x, y, z) in a chunk's arrays: y varies fastest,
/// then z, then x.
pub open spec fn block_index(x: int, y: int, z: int) -> int {
    y + z * SIZE_Y + x * SIZE_Y * SIZE_Z
}

/// The contents of a chunk: its chunk coordinates, the block type of every
/// block, and the metadata, block light and sky light nibble arrays.
pub struct ChunkView {
    pub x: i32,
    pub z: i32,
    pub types: Seq<u8>,
    pub metadata: Seq<u8>,
    pub block_light: Seq<u8>,
    pub sky_light: Seq<u8>,
}

/// A freshly made chunk at (x, z): all air, no metadata, no block light,
/// full sky light.
pub open spec fn fresh_chunk(x: i32, z: i32) -> ChunkView {
    ChunkView {
        x,
        z,
        types: Seq::new(BLOCKS as nat, |i: int| 0u8),
        metadata: Seq::new(HALF_BLOCKS as nat, |i: int| 0u8),
        block_light: Seq::new(HALF_BLOCKS as nat, |i: int| 0u8),
        sky_light: Seq::new(HALF_BLOCKS as nat, |i: int| 0xFFu8),
    }
}

/// A 16 x 128 x 16 column of blocks.
pub struct Chunk {
    pub x: i32,
    pub z: i32,
    types: Vec<u8>,
    metadata: Vec<u8>,
    block_light: Vec<u8>,
    sky_light: Vec<u8>,
}

impl View for Chunk {
    type V = ChunkView;

    closed spec fn view(&self) -> ChunkView {
        ChunkView {
            x: self.x,
            z: self.z,
            types: self.types@,
            metadata: self.metadata@,
            block_light: self.block_light@,
            sky_light: self.sky_light@,
        }
    }
}

/// The four arrays of a chunk have their full sizes.
pub open spec fn chunk_view_wf(c: ChunkView) -> bool {
    &&& c.types.len() == BLOCKS
    &&& c.metadata.len() == HALF_BLOCKS
    &&& c.block_light.len() == HALF_BLOCKS
    &&& c.sky_light.len() == HALF_BLOCKS
}

impl Chunk {
    /// The chunk's arrays have their full sizes.
    pub open spec fn wf(&self) -> bool {
        chunk_view_wf(self@)
    }

    /// A fresh chunk at chunk coordinates (x, z).
    pub fn new(x: i32, z: i32) -> (c: Chunk)
        ensures
            c@ == fresh_chunk(x, z),
            c.wf(),
    {
        let c = Chunk {
            x,
            z,
            types: vec![0u8; BLOCKS],
            metadata: vec![0u8; HALF_BLOCKS],
            block_light: vec![0u8; HALF_BLOCKS],
            sky_light: vec![0xFFu8; HALF_BLOCKS],
        };
        assert(c@.types =~= fresh_chunk(x, z).types);
        assert(c@.metadata =~= fresh_chunk(x, z).metadata);
        assert(c@.block_light =~= fresh_chunk(x, z).block_light);
        assert(c@.sky_light =~= fresh_chunk(x, z).sky_light);
        c
    }

    /// The chunk coordinates (x, z).
    pub fn coords(&self) -> (c: (i32, i32))
        ensures
            c == (self@.x, self@.z),
    {
        (self.x, self.z)
    }

    /// The index of block (x, y, z) in the chunk's arrays.
    fn index(x: usize, y: usize, z: usize) -> (i: usize)
        requires
            block_index(x as int, y as int, z as int) < BLOCKS,
        ensures
            i == block_index(x as int, y as int, z as int),
    {
        y + z * SIZE_Y + x * SIZE_Y * SIZE_Z
    }

    /// Sets the type of block (x, y, z) to `id`.
    pub fn set_block(&mut self, x: usize, y: usize, z: usize, id: u8)
        requires
            old(self).wf(),
            block_index(x as int, y as int, z as int) < BLOCKS,
        ensures
            final(self).wf(),
            final(self)@ == (ChunkView {
                types: old(self)@.types.update(block_index(x as int, y as int, z as int), id),
                ..old(self)@
            }),
    {
        let i = Self::index(x, y, z);
        self.types.set(i, id);
    }

    /// The type of block (x, y, z).
    pub fn block(&self, x: usize, y: usize, z: usize) -> (id: u8)
        requires
            self.wf(),
            block_index(x as int, y as int, z as int) < BLOCKS,
        ensures
            id == self@.types[block_index(x as int, y as int, z as int)],
    {
        self.types[Self::index(x, y, z)]
    }

    /// The chunk's arrays, in the order types, metadata, block light, sky
    /// light, compressed as one zlib stream at the default level. Fails
    /// exactly when the encoder fails on these arrays.
    pub fn compressed(&self) -> (r: Result<Vec<u8>, CompressError>)
        ensures
            match chunk_data(self@) {
                Some(d) => r matches Ok(v) && v@ == d,
                None => r == Err::<Vec<u8>, CompressError>(CompressError),
            },
    {
        zlib_compress(
            self.types.as_slice(),
            self.metadata.as_slice(),
            self.block_light.as_slice(),
            self.sky_light.as_slice(),
        )
    }
}

/// The compressed form of a chunk that is sent to clients, or `None` when
/// the encoder fails on its arrays.
pub open spec fn chunk_data(c: ChunkView) -> Option<Seq<u8>> {
    zlib_compressed(seq![c.types, c.metadata, c.block_light, c.sky_light])
}

/// The compressor failed.
#[derive(Debug, Clone, Copy, PartialEq, Eq)]
pub struct CompressError;

/// What the encoder gives when the given byte strings are written to it in
/// order: the zlib stream (default level), or `None` when it reports an
/// error.
pub uninterp spec fn zlib_compressed(parts: Seq<Seq<u8>>) -> Option<Seq<u8>>;

/// Compresses four byte strings, written in order, into one zlib stream
/// with `flate2::write::ZlibEncoder` over a `Vec<u8>` at
/// `Compression::default()`. The encoder runs in memory on the pure-Rust
/// backend, writing to a vector cannot fail, so both the output and
/// whether the encoder reports an error are named as a function of the
/// input parts; the contract does not say which inputs, if any, fail.
#[verifier::external_body]
fn zlib_compress(a: &[u8], b: &[u8], c: &[u8], d: &[u8]) -> (r: Result<Vec<u8>, CompressError>)
    ensures
        match zlib_compressed(seq![a@, b@, c@, d@]) {
            Some(z) => r matches Ok(v) && v@ == z,
            None => r == Err::<Vec<u8>, CompressError>(CompressError),
        },
{
    let mut e = ZlibEncoder::new(Vec::new(), Compression::default());
    if e.write_all(a).is_err() || e.write_all(b).is_err() || e.write_all(c).is_err()
        || e.write_all(d).is_err() {
        return Err(CompressError);
    }
    match e.finish() {
        Ok(v) => Ok(v),
        Err(_) => Err(CompressError),
    }
}

/// Fills chunks with blocks.
pub trait Generator {
    /// Whether the generator can fill a chunk without going outside it.
    spec fn can_generate(&self) -> bool;

    /// What the generator makes of a chunk.
    spec fn generated(&self, chunk: ChunkView) -> ChunkView;

    /// A generator fills a chunk where it is: the chunk coordinates stay.
    proof fn lemma_keeps_coords(&self, chunk: ChunkView)
        ensures
            self.generated(chunk).x == chunk.x,
            self.generated(chunk).z == chunk.z,
    ;

    /// Fills `chunk`.
    fn generate(&self, chunk: &mut Chunk)
        requires
            self.can_generate(),
            old(chunk).wf(),
        ensures
            final(chunk).wf(),
            final(chunk)@ == self.generated(old(chunk)@),
    ;
}

/// A flat world: every column filled with `block` from y = 0 up to, not
/// including, `height`.
#[derive(Debug, Clone, Copy)]
pub struct FlatGenerator {
    pub height: usize,
    pub block: u8,
}

/// Whether the block at array index `i` lies below `height` (its y is the
/// index modulo the chunk height).
pub open spec fn below(i: int, height: int) -> bool {
    i % (SIZE_Y as int) < height
}

impl Generator for FlatGenerator {
    open spec fn can_generate(&self) -> bool {
        self.height <= SIZE_Y
    }

    open spec fn generated(&self, chunk: ChunkView) -> ChunkView {
        ChunkView {
            types: Seq::new(
                chunk.types.len(),
                |i: int|
                    if below(i, self.height as int) {
                        self.block
                    } else {
                        chunk.types[i]
                    },
            ),
            ..chunk
        }
    }

    proof fn lemma_keeps_coords(&self, chunk: ChunkView) {
    }

    fn generate(&self, chunk: &mut Chunk) {
        let ghost start = chunk@;
        let mut x: usize = 0;
        while x < SIZE_X
            invariant
                x <= SIZE_X,
                self.height <= SIZE_Y,
                chunk.wf(),
                chunk@ == (ChunkView { types: chunk@.types, ..start }),
                forall|i: int|
                    0 <= i < BLOCKS ==> #[trigger] chunk@.types[i] == if i < x * 2048 && below(
                        i,
                        self.height as int,
                    ) {
                        self.block
                    } else {
                        start.types[i]
                    },
            decreases SIZE_X - x,
        {
            let mut z: usize = 0;
            while z < SIZE_Z
                invariant
                    x < SIZE_X,
                    z <= SIZE_Z,
                    self.height <= SIZE_Y,
                    chunk.wf(),
                    chunk@ == (ChunkView { types: chunk@.types, ..start }),
                    forall|i: int|
                        0 <= i < BLOCKS ==> #[trigger] chunk@.types[i] == if i < x * 2048 + z
                            * 128 && below(i, self.height as int) {
                            self.block
                        } else {
                            start.types[i]
                        },
                decreases SIZE_Z - z,
            {
                let mut y: usize = 0;
                while y < self.height
                    invariant
                        x < SIZE_X,
                        z < SIZE_Z,
                        y <= self.height <= SIZE_Y,
                        chunk.wf(),
                        chunk@ == (ChunkView { types: chunk@.types, ..start }),
                        forall|i: int|
                            0 <= i < BLOCKS ==> #[trigger] chunk@.types[i] == if (i < x * 2048 + z
                                * 128 && below(i, self.height as int)) || (x * 2048 + z * 128 <= i
                                < x * 2048 + z * 128 + y) {
                                self.block
                            } else {
                                start.types[i]
                            },
                    decreases self.height - y,
                {
                    chunk.set_block(x, y, z, self.block);
                    y = y + 1;
                }
                proof {
                    assert forall|i: int| 0 <= i < BLOCKS implies #[trigger] chunk@.types[i] == if i
                        < x * 2048 + (z + 1) * 128 && below(i, self.height as int) {
                        self.block
                    } else {
                        start.types[i]
                    } by {
                        lemma_column(i, (x * 2048 + z * 128) as int);
                    }
                }
                z = z + 1;
            }
            x = x + 1;
        }
        assert(chunk@.types =~= self.generated(start).types);
    }
}

/// The indices from `base` (a multiple of the chunk height) up to
/// `base + 128` are those of one column, their y running from 0 to 127.
proof fn lemma_column(i: int, base: int)
    requires
        base % 128 == 0,
        0 <= base,
    ensures
        base <= i < base + 128 ==> i % 128 == i - base,
{
    if base <= i < base + 128 {
        assert((i - base) % 128 == i - base);
        vstd::arithmetic::div_mod::lemma_mod_sub_multiples_vanish(i, 128);
    }
}

/// The key a chunk at (x, z) is stored under: distinct coordinates give
/// distinct keys.
pub open spec fn chunk_key(x: i32, z: i32) -> i64 {
    (x as int * 0x1_0000_0000 + z as int + 0x8000_0000) as i64
}

pub proof fn lemma_chunk_key_injective(x1: i32, z1: i32, x2: i32, z2: i32)
    ensures
        chunk_key(x1, z1) == chunk_key(x2, z2) ==> x1 == x2 && z1 == z2,
{
    lemma_chunk_key_range(x1, z1);
    lemma_chunk_key_range(x2, z2);
    if chunk_key(x1, z1) == chunk_key(x2, z2) {
        assert(x1 as int * 0x1_0000_0000 + z1 as int + 0x8000_0000 == x2 as int * 0x1_0000_0000
            + z2 as int + 0x8000_0000);
        if x1 < x2 {
            assert(x1 as int * 0x1_0000_0000 + 0x1_0000_0000 <= x2 as int * 0x1_0000_0000);
        } else if x2 < x1 {
            assert(x2 as int * 0x1_0000_0000 + 0x1_0000_0000 <= x1 as int * 0x1_0000_0000);
        }
    }
}

proof fn lemma_chunk_key_range(x: i32, z: i32)
    ensures
        i64::MIN <= x as int * 0x1_0000_0000 + z as int + 0x8000_0000 <= i64::MAX,
{
    assert(-0x8000_0000 * 0x1_0000_0000 <= x as int * 0x1_0000_0000 <= 0x7FFF_FFFF * 0x1_0000_0000)
        by (nonlinear_arith)
        requires
            -0x8000_0000 <= x <= 0x7FFF_FFFF,
    ;
}

/// Every chunk generated so far, each made once, when first asked for.
pub struct World<G: Generator> {
    chunks: HashMap<i64, Chunk>,
    generator: G,
}

/// What asking for the chunk at (x, z) does to a world's chunks: the chunk
/// there if there is one, else a fresh chunk filled by the generator, which
/// the world then keeps.
pub open spec fn chunk_step<G: Generator>(
    chunks: Map<(i32, i32), ChunkView>,
    generator: G,
    x: i32,
    z: i32,
) -> (Map<(i32, i32), ChunkView>, ChunkView) {
    if chunks.contains_key((x, z)) {
        (chunks, chunks[(x, z)])
    } else {
        let c = generator.generated(fresh_chunk(x, z));
        (chunks.insert((x, z), c), c)
    }
}

impl<G: Generator> World<G> {
    #[verifier::type_invariant]
    closed spec fn inv(&self) -> bool {
        &&& self.generator.can_generate()
        &&& forall|k: i64| #[trigger]
            self.chunks@.contains_key(k) ==> self.chunks@[k].wf() && chunk_key(
                self.chunks@[k]@.x,
                self.chunks@[k]@.z,
            ) == k
    }

    /// The chunks generated so far, by chunk coordinates.
    pub closed spec fn chunks(&self) -> Map<(i32, i32), ChunkView> {
        Map::new(
            |k: (i32, i32)| self.chunks@.contains_key(chunk_key(k.0, k.1)),
            |k: (i32, i32)| self.chunks@[chunk_key(k.0, k.1)]@,
        )
    }

    /// The world's generator.
    pub closed spec fn generator(&self) -> G {
        self.generator
    }

    /// An empty world that fills its chunks with `generator`.
    pub fn new(generator: G) -> (w: World<G>)
        requires
            generator.can_generate(),
        ensures
            w.chunks() == Map::<(i32, i32), ChunkView>::empty(),
            w.generator() == generator,
    {
        let w = World { chunks: HashMap::new(), generator };
        assert(w.chunks() =~= Map::<(i32, i32), ChunkView>::empty());
        w
    }

    /// The chunk at chunk coordinates (x, z), generated and kept the first
    /// time it is asked for.
    pub fn chunk(&mut self, x: i32, z: i32) -> (c: &Chunk)
        ensures
            (final(self).chunks(), c@) == chunk_step(
                old(self).chunks(),
                old(self).generator(),
                x,
                z,
            ),
            final(self).generator() == old(self).generator(),
            c.wf(),
            c@.x == x && c@.z == z,
    {
        proof { use_type_invariant(&*self); }
        proof { lemma_chunk_key_range(x, z); }
        let key: i64 = x as i64 * 0x1_0000_0000 + (z as i64 + 0x8000_0000);
        assert(key == chunk_key(x, z));
        let ghost before = self.chunks@;
        if !self.chunks.contains_key(&key) {
            let mut chunk = Chunk::new(x, z);
            self.generator.generate(&mut chunk);
            proof { self.generator.lemma_keeps_coords(fresh_chunk(x, z)); }
            let mut chunks: HashMap<i64, Chunk> = HashMap::new();
            std::mem::swap(&mut chunks, &mut self.chunks);
            chunks.insert(key, chunk);
            std::mem::swap(&mut chunks, &mut self.chunks);
            proof {
                let ghost expected = old(self).chunks().insert(
                    (x, z),
                    self.generator.generated(fresh_chunk(x, z)),
                );
                assert forall|k: (i32, i32)| #![auto]
                    self.chunks@.contains_key(chunk_key(k.0, k.1)) == expected.contains_key(k) by {
                    lemma_chunk_key_injective(k.0, k.1, x, z);
                }
                assert(self.chunks() =~= old(self).chunks().insert(
                    (x, z),
                    self.generator.generated(fresh_chunk(x, z)),
                ));
            }
        }
        let c = self.chunks.get(&key).unwrap();
        proof {
            lemma_chunk_key_injective(c@.x, c@.z, x, z);
        }
        c
    }
}

/// A chunk is generated once: asking a world for the chunk at (x, z) again
/// gives the same chunk and changes nothing, and asking for it never
/// changes the chunk at any other coordinates.
pub proof fn law_chunk_generated_once<G: Generator>(
    chunks: Map<(i32, i32), ChunkView>,
    g: G,
    x: i32,
    z: i32,
    other: (i32, i32),
)
    requires
        other != (x, z),
    ensures
        ({
            let (after, c) = chunk_step(chunks, g, x, z);
            &&& after.contains_key((x, z)) && after[(x, z)] == c
            &&& chunk_step(after, g, x, z) == (after, c)
            &&& after.contains_key(other) == chunks.contains_key(other)
            &&& chunks.contains_key(other) ==> after[other] == chunks[other]
        }),
{
}

/// A flat world: in a chunk the flat generator fills, each column holds
/// `block` from y = 0 up to, not including, `height`, and air above.
pub proof fn law_flat_columns(gen: FlatGenerator, cx: i32, cz: i32, x: int, y: int, z: int)
    requires
        gen.can_generate(),
        0 <= x < SIZE_X,
        0 <= y < SIZE_Y,
        0 <= z < SIZE_Z,
    ensures
        gen.generated(fresh_chunk(cx, cz)).types[block_index(x, y, z)] == if y < gen.height {
            gen.block
        } else {
            0u8
        },
{
    let i = block_index(x, y, z);
    assert(0 <= i < BLOCKS) by (nonlinear_arith)
        requires
            i == y + z * 128 + x * 128 * 16,
            0 <= x < 16,
            0 <= y < 128,
            0 <= z < 16,
    ;
    assert(i % 128 == y) by (nonlinear_arith)
        requires
            i == y + z * 128 + x * 128 * 16,
            0 <= y < 128,
            0 <= z,
            0 <= x,
    ;
}

/// Setting a block changes that block and no other: in a chunk whose arrays
/// have their full sizes, after block (x, y, z) is set to `id`, reading
/// (x, y, z) gives `id`, and reading any other block of the chunk gives
/// what it held before.
pub proof fn law_set_block_get(
    c: ChunkView,
    x: int,
    y: int,
    z: int,
    id: u8,
    x2: int,
    y2: int,
    z2: int,
)
    requires
        chunk_view_wf(c),
        0 <= x < SIZE_X && 0 <= y < SIZE_Y && 0 <= z < SIZE_Z,
        0 <= x2 < SIZE_X && 0 <= y2 < SIZE_Y && 0 <= z2 < SIZE_Z,
    ensures
        ({
            let t = c.types.update(block_index(x, y, z), id);
            &&& t.len() == BLOCKS
            &&& t[block_index(x, y, z)] == id
            &&& (x2, y2, z2) != (x, y, z) ==> t[block_index(x2, y2, z2)] == c.types[block_index(
                x2,
                y2,
                z2,
            )]
        }),
{
    let i = block_index(x, y, z);
    let j = block_index(x2, y2, z2);
    assert(0 <= i < BLOCKS && 0 <= j < BLOCKS) by (nonlinear_arith)
        requires
            i == y + z * 128 + x * 128 * 16,
            j == y2 + z2 * 128 + x2 * 128 * 16,
            0 <= x < 16 && 0 <= y < 128 && 0 <= z < 16,
            0 <= x2 < 16 && 0 <= y2 < 128 && 0 <= z2 < 16,
    ;
    assert(i == j ==> x == x2 && y == y2 && z == z2) by (nonlinear_arith)
        requires
            i == y + z * 128 + x * 128 * 16,
            j == y2 + z2 * 128 + x2 * 128 * 16,
            0 <= x < 16 && 0 <= y < 128 && 0 <= z < 16,
            0 <= x2 < 16 && 0 <= y2 < 128 && 0 <= z2 < 16,
    ;
}

} // verus!
