//! What the server sends a player that has just logged in.

use vstd::prelude::*;
use crate::clientbound::{chunk_wire, ClientboundPacket};
use crate::position::Position;
use crate::world::{chunk_data, chunk_step, ChunkView, CompressError, Generator, World};
use crate::writer::PacketWriter;

verus! {

/// The world's chunks and the bytes sent so far.
pub type SpawnState = (Map<(i32, i32), ChunkView>, Seq<u8>);

/// Sending spawn chunks so far: `Ok` while every chunk has been sent, `Err`
/// once compressing one failed, holding the state at that point.
pub type SpawnProgress = Result<SpawnState, SpawnState>;

/// The world's chunks and the bytes sent, whether or not sending stopped.
pub open spec fn settled(p: SpawnProgress) -> SpawnState {
    match p {
        Ok(s) => s,
        Err(s) => s,
    }
}

/// Sending chunk (cx, cz): the chunk is fetched (generated if new), then
/// announced with a pre-chunk packet and sent compressed. When compressing
/// it fails, sending stops after the announcement; once stopped, nothing
/// more happens.
pub open spec fn spawn_step<G: Generator>(
    progress: SpawnProgress,
    g: G,
    cx: i32,
    cz: i32,
) -> SpawnProgress {
    match progress {
        Err(s) => Err(s),
        Ok(s) => {
            let (m, c) = chunk_step(s.0, g, cx, cz);
            let announced = s.1 + ClientboundPacket::PreChunk {
                chunk_x: cx,
                chunk_z: cz,
                mode: true,
            }.wire();
            match chunk_data(c) {
                Some(d) => Ok((m, announced + chunk_wire(c.x, c.z, d))),
                None => Err((m, announced)),
            }
        },
    }
}

/// Sending the first `k` chunks of column `cx`, from z = `lo` upwards.
pub open spec fn spawn_column<G: Generator>(
    progress: SpawnProgress,
    g: G,
    cx: i32,
    lo: int,
    k: nat,
) -> SpawnProgress
    decreases k,
{
    if k == 0 {
        progress
    } else {
        spawn_step(spawn_column(progress, g, cx, lo, (k - 1) as nat), g, cx, (lo + k - 1) as i32)
    }
}

/// Sending the first `j` columns, from x = `lo` upwards, each `width`
/// chunks long from z = `lo` upwards.
pub open spec fn spawn_columns<G: Generator>(
    progress: SpawnProgress,
    g: G,
    lo: int,
    width: nat,
    j: nat,
) -> SpawnProgress
    decreases j,
{
    if j == 0 {
        progress
    } else {
        spawn_column(
            spawn_columns(progress, g, lo, width, (j - 1) as nat),
            g,
            (lo + j - 1) as i32,
            lo,
            width,
        )
    }
}

/// Sending every chunk with both coordinates from -radius to radius, x in
/// the outer order and z in the inner, each increasing.
pub open spec fn spawn_area<G: Generator>(progress: SpawnProgress, g: G, radius: i32) -> SpawnProgress {
    if radius < 0 {
        progress
    } else {
        spawn_columns(
            progress,
            g,
            -radius as int,
            (2 * radius + 1) as nat,
            (2 * radius + 1) as nat,
        )
    }
}

proof fn lemma_column_stopped<G: Generator>(s: SpawnState, g: G, cx: i32, lo: int, k: nat)
    ensures
        spawn_column(Err(s), g, cx, lo, k) == Err::<SpawnState, SpawnState>(s),
    decreases k,
{
    if k > 0 {
        lemma_column_stopped(s, g, cx, lo, (k - 1) as nat);
    }
}

proof fn lemma_columns_stopped<G: Generator>(s: SpawnState, g: G, lo: int, width: nat, j: nat)
    ensures
        spawn_columns(Err(s), g, lo, width, j) == Err::<SpawnState, SpawnState>(s),
    decreases j,
{
    if j > 0 {
        lemma_columns_stopped(s, g, lo, width, (j - 1) as nat);
        lemma_column_stopped(s, g, (lo + j - 1) as i32, lo, width);
    }
}

/// Once a column has stopped, sending more of it changes nothing.
proof fn lemma_column_extend<G: Generator>(
    p: SpawnProgress,
    g: G,
    cx: i32,
    lo: int,
    k1: nat,
    k2: nat,
)
    requires
        k1 <= k2,
        spawn_column(p, g, cx, lo, k1) is Err,
    ensures
        spawn_column(p, g, cx, lo, k2) == spawn_column(p, g, cx, lo, k1),
    decreases k2,
{
    if k2 > k1 {
        lemma_column_extend(p, g, cx, lo, k1, (k2 - 1) as nat);
    }
}

/// Once sending has stopped, sending more columns changes nothing.
proof fn lemma_columns_extend<G: Generator>(
    p: SpawnProgress,
    g: G,
    lo: int,
    width: nat,
    j1: nat,
    j2: nat,
)
    requires
        j1 <= j2,
        spawn_columns(p, g, lo, width, j1) is Err,
    ensures
        spawn_columns(p, g, lo, width, j2) == spawn_columns(p, g, lo, width, j1),
    decreases j2,
{
    if j2 > j1 {
        lemma_columns_extend(p, g, lo, width, j1, (j2 - 1) as nat);
        let s = spawn_columns(p, g, lo, width, j1)->Err_0;
        lemma_column_stopped(s, g, (lo + j2 - 1) as i32, lo, width);
    }
}

/// Writes the chunks around the origin that a joining player starts in:
/// for x from -radius to radius, and within each x for z from -radius to
/// radius, a pre-chunk packet then the chunk itself, generating chunks the
/// world does not have yet; a negative radius sends nothing. When
/// compressing a chunk fails it stops there, after that chunk's pre-chunk
/// packet, and fails.
pub fn write_spawn_chunks<G: Generator>(
    world: &mut World<G>,
    radius: i32,
    writer: &mut PacketWriter,
) -> (r: Result<(), CompressError>)
    requires
        i32::MIN < radius < 0x800_0000,
    ensures
        final(world).generator() == old(world).generator(),
        ({
            let out = spawn_area(
                Ok((old(world).chunks(), old(writer)@)),
                old(world).generator(),
                radius,
            );
            &&& r is Ok <==> out is Ok
            &&& r is Err ==> r == Err::<(), CompressError>(CompressError)
            &&& (final(world).chunks(), final(writer)@) == settled(out)
        }),
{
    let ghost start: SpawnProgress = Ok((world.chunks(), writer@));
    let ghost g = world.generator();
    let ghost width: nat = if radius < 0 { 0 } else { (2 * radius + 1) as nat };
    let mut cx: i32 = -radius;
    while cx <= radius
        invariant
            i32::MIN < radius < 0x800_0000,
            radius < 0 ==> cx == -radius,
            radius >= 0 ==> -radius <= cx <= radius + 1,
            world.generator() == g,
            g == old(world).generator(),
            start == Ok::<SpawnState, SpawnState>((old(world).chunks(), old(writer)@)),
            width == if radius < 0 { 0 } else { (2 * radius + 1) as nat },
            spawn_columns(start, g, -radius as int, width, (cx + radius) as nat) == Ok::<
                SpawnState,
                SpawnState,
            >((world.chunks(), writer@)),
        decreases radius - cx + 1,
    {
        let ghost before_column: SpawnProgress = Ok((world.chunks(), writer@));
        let mut cz: i32 = -radius;
        while cz <= radius
            invariant
                0 <= radius < 0x800_0000,
                -radius <= cx <= radius,
                -radius <= cz <= radius + 1,
                world.generator() == g,
                g == old(world).generator(),
                start == Ok::<SpawnState, SpawnState>((old(world).chunks(), old(writer)@)),
                width == (2 * radius + 1) as nat,
                before_column == spawn_columns(start, g, -radius as int, width, (cx + radius) as nat),
                spawn_column(before_column, g, cx, -radius as int, (cz + radius) as nat) == Ok::<
                    SpawnState,
                    SpawnState,
                >((world.chunks(), writer@)),
            decreases radius - cz + 1,
        {
            let ghost before_chunk: SpawnProgress = Ok((world.chunks(), writer@));
            let announce = ClientboundPacket::PreChunk { chunk_x: cx, chunk_z: cz, mode: true };
            let _ = announce.write(writer);
            let chunk = world.chunk(cx, cz);
            let packet = match ClientboundPacket::from_chunk(chunk) {
                Ok(p) => p,
                Err(e) => {
                    proof {
                        let k = (cz + radius + 1) as nat;
                        let col = spawn_column(before_column, g, cx, -radius as int, k);
                        assert(col == spawn_step(before_chunk, g, cx, cz));
                        assert(col == Err::<SpawnState, SpawnState>((world.chunks(), writer@)));
                        lemma_column_extend(before_column, g, cx, -radius as int, k, width);
                        let j = (cx + radius) as nat;
                        assert(spawn_columns(start, g, -radius as int, width, j + 1) == col);
                        lemma_columns_extend(start, g, -radius as int, width, j + 1, width);
                    }
                    return Err(e);
                },
            };
            let _ = packet.write(writer);
            assert(Ok::<SpawnState, SpawnState>((world.chunks(), writer@)) == spawn_step(
                before_chunk,
                g,
                cx,
                cz,
            ));
            cz = cz + 1;
        }
        cx = cx + 1;
    }
    Ok(())
}

/// Writes what a player that has just logged in is sent: the login reply
/// with its entity id (world seed 0, dimension 0), the spawn chunks within
/// radius 5 of the origin, its position and stance (bit patterns of `f64`
/// values), and the spawn point (0, 5, 0). When compressing a chunk fails,
/// it stops there, as `write_spawn_chunks` does, and fails.
pub fn write_login_response<G: Generator>(
    world: &mut World<G>,
    entity_id: i32,
    spawn: Position,
    stance: u64,
    writer: &mut PacketWriter,
) -> (r: Result<(), CompressError>)
    ensures
        final(world).generator() == old(world).generator(),
        ({
            let after_login = old(writer)@ + ClientboundPacket::Login {
                entity_id,
                world_seed: 0,
                dimension: 0,
            }.wire();
            let out = spawn_area(Ok((old(world).chunks(), after_login)), old(world).generator(), 5);
            &&& r is Ok <==> out is Ok
            &&& r is Err ==> r == Err::<(), CompressError>(CompressError)
            &&& final(world).chunks() == settled(out).0
            &&& final(writer)@ == if out is Ok {
                settled(out).1 + ClientboundPacket::PlayerPositionLook {
                    position: spawn,
                    stance,
                }.wire() + ClientboundPacket::SetSpawnPosition { x: 0, y: 5, z: 0 }.wire()
            } else {
                settled(out).1
            }
        }),
{
    let _ = ClientboundPacket::Login { entity_id, world_seed: 0, dimension: 0 }.write(writer);
    write_spawn_chunks(world, 5, writer)?;
    let _ = ClientboundPacket::PlayerPositionLook { position: spawn, stance }.write(writer);
    let _ = ClientboundPacket::SetSpawnPosition { x: 0, y: 5, z: 0 }.write(writer);
    Ok(())
}

/// The chat line everyone sees when a player joins.
pub open spec fn join_line(username: Seq<char>) -> Seq<char> {
    "§e"@ + username + " joined"@
}

/// The chat line the others see when a player leaves.
pub open spec fn leave_line(username: Seq<char>) -> Seq<char> {
    "§e"@ + username + " left"@
}

/// The chat line announcing that `username` joined: "§e" (yellow), the
/// name, then " joined".
pub fn join_message(username: &str) -> (m: String)
    ensures
        m@ == join_line(username@),
{
    let mut m = "§e".to_string();
    m.append(username);
    m.append(" joined");
    m
}

/// The chat line announcing that `username` left: "§e" (yellow), the
/// name, then " left".
pub fn leave_message(username: &str) -> (m: String)
    ensures
        m@ == leave_line(username@),
{
    let mut m = "§e".to_string();
    m.append(username);
    m.append(" left");
    m
}

/// Sending more of a column never drops a chunk the world already holds.
proof fn lemma_column_keeps<G: Generator>(
    p: SpawnProgress,
    g: G,
    cx: i32,
    lo: int,
    k: nat,
    key: (i32, i32),
)
    requires
        settled(p).0.contains_key(key),
    ensures
        settled(spawn_column(p, g, cx, lo, k)).0.contains_key(key),
    decreases k,
{
    if k > 0 {
        lemma_column_keeps(p, g, cx, lo, (k - 1) as nat, key);
    }
}

proof fn lemma_column_covers<G: Generator>(
    p: SpawnProgress,
    g: G,
    cx: i32,
    lo: int,
    k: nat,
    z: i32,
)
    requires
        lo <= z < lo + k,
        spawn_column(p, g, cx, lo, k) is Ok,
    ensures
        settled(spawn_column(p, g, cx, lo, k)).0.contains_key((cx, z)),
    decreases k,
{
    let prev = spawn_column(p, g, cx, lo, (k - 1) as nat);
    if prev is Err {
        lemma_column_stopped(prev->Err_0, g, cx, lo, 0);
        assert(spawn_column(p, g, cx, lo, k) == spawn_step(prev, g, cx, (lo + k - 1) as i32));
    }
    if z < lo + k - 1 {
        lemma_column_covers(p, g, cx, lo, (k - 1) as nat, z);
    }
}

proof fn lemma_columns_cover<G: Generator>(
    p: SpawnProgress,
    g: G,
    lo: int,
    width: nat,
    j: nat,
    x: i32,
    z: i32,
)
    requires
        lo <= x < lo + j,
        lo <= z < lo + width,
        spawn_columns(p, g, lo, width, j) is Ok,
    ensures
        settled(spawn_columns(p, g, lo, width, j)).0.contains_key((x, z)),
    decreases j,
{
    let prev = spawn_columns(p, g, lo, width, (j - 1) as nat);
    if prev is Err {
        lemma_column_stopped(prev->Err_0, g, (lo + j - 1) as i32, lo, width);
    }
    if x < lo + j - 1 {
        lemma_columns_cover(p, g, lo, width, (j - 1) as nat, x, z);
        lemma_column_keeps(prev, g, (lo + j - 1) as i32, lo, width, (x, z));
    } else {
        lemma_column_covers(prev, g, x, lo, width, z);
    }
}

/// After the spawn chunks are all sent, the world holds every chunk with
/// both coordinates between -radius and radius.
pub proof fn law_spawn_area_generated<G: Generator>(
    state: SpawnState,
    g: G,
    radius: i32,
    x: i32,
    z: i32,
)
    requires
        -radius <= x <= radius,
        -radius <= z <= radius,
        spawn_area(Ok(state), g, radius) is Ok,
    ensures
        settled(spawn_area(Ok(state), g, radius)).0.contains_key((x, z)),
{
    lemma_columns_cover(
        Ok(state),
        g,
        -radius as int,
        (2 * radius + 1) as nat,
        (2 * radius + 1) as nat,
        x,
        z,
    );
}

/// The join and leave lines, character by character: '§' and 'e' (the
/// colour code for yellow), the player's name unchanged, then " joined" or
/// " left".
pub proof fn law_join_leave_lines(username: Seq<char>)
    ensures
        ({
            let j = join_line(username);
            let n = username.len() as int;
            &&& j.len() == n + 9
            &&& j[0] == '§' && j[1] == 'e'
            &&& j.subrange(2, n + 2) == username
            &&& j.skip(n + 2) == seq![' ', 'j', 'o', 'i', 'n', 'e', 'd']
        }),
        ({
            let l = leave_line(username);
            let n = username.len() as int;
            &&& l.len() == n + 7
            &&& l[0] == '§' && l[1] == 'e'
            &&& l.subrange(2, n + 2) == username
            &&& l.skip(n + 2) == seq![' ', 'l', 'e', 'f', 't']
        }),
{
    reveal_strlit("§e");
    reveal_strlit(" joined");
    reveal_strlit(" left");
    let n = username.len() as int;
    let j = join_line(username);
    let l = leave_line(username);
    assert(j.subrange(2, n + 2) =~= username);
    assert(j.skip(n + 2) =~= seq![' ', 'j', 'o', 'i', 'n', 'e', 'd']);
    assert(l.subrange(2, n + 2) =~= username);
    assert(l.skip(n + 2) =~= seq![' ', 'l', 'e', 'f', 't']);
}

} // verus!
