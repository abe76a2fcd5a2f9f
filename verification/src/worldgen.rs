//! Deterministic chunk generation.
//!
//! Generation is a pure function of the world seed and the chunk position:
//! equal inputs always yield identical block arrays. That determinism is
//! what lets the protocol ship only deltas instead of full chunks. Each
//! column gets a terrain height from an integer height field; the column is
//! stone below, a few layers of dirt underneath a grass block on top, and
//! air above.

use vstd::prelude::*;

use crate::block::AIR_BLOCK_ID;
use crate::chunk::{BlockData, ChunkData, WorldGenesisData};
use crate::pos::{ChunkPos, LocalBlockPos};
use crate::{BLOCKS_PER_CHUNK, CHUNK_WIDTH};

verus! {

/// Mixing weight of the world x coordinate in the height field.
pub const HEIGHT_MIX_X: i64 = 73856093;

/// Mixing weight of the world z coordinate in the height field.
pub const HEIGHT_MIX_Z: i64 = 19349663;

/// Shift keeping the mixed height-field value nonnegative before reduction.
pub const HEIGHT_MIX_SHIFT: i64 = 4_000_000_000_000_000_000;

/// Lowest terrain height a column can get.
pub const MIN_FLOOR_HEIGHT: u8 = 20;

/// Number of distinct terrain heights.
pub const FLOOR_HEIGHT_RANGE: i64 = 21;

/// Terrain height of the column at world coordinates `(wx, wz)`: a value in
/// `[MIN_FLOOR_HEIGHT, MIN_FLOOR_HEIGHT + FLOOR_HEIGHT_RANGE)`.
pub open spec fn height_at(seed: u32, wx: int, wz: int) -> int {
    MIN_FLOOR_HEIGHT + (wx * HEIGHT_MIX_X + wz * HEIGHT_MIX_Z + seed + HEIGHT_MIX_SHIFT)
        % (FLOOR_HEIGHT_RANGE as int)
}

/// Block generated at flat index `i` of the chunk at `pos`.
pub open spec fn gen_block_at(gen: WorldGenesisData, pos: ChunkPos, i: int) -> BlockData {
    let p = LocalBlockPos::from_index_spec(i);
    let h = height_at(
        gen.seed,
        pos.x * CHUNK_WIDTH + p.x,
        pos.z * CHUNK_WIDTH + p.z,
    );
    if p.y > h {
        BlockData { type_id: AIR_BLOCK_ID }
    } else if p.y == h {
        BlockData { type_id: 4 }
    } else if p.y + 3 >= h {
        BlockData { type_id: 3 }
    } else {
        BlockData { type_id: 2 }
    }
}

/// The whole generated block array of the chunk at `pos`.
pub open spec fn chunk_gen_blocks(gen: WorldGenesisData, pos: ChunkPos) -> Seq<BlockData> {
    Seq::new(BLOCKS_PER_CHUNK as nat, |i: int| gen_block_at(gen, pos, i))
}

/// Terrain height of one column, as executable code.
fn column_height(seed: u32, pos: ChunkPos, x: u8, z: u8) -> (h: u8)
    requires
        x < CHUNK_WIDTH,
        z < CHUNK_WIDTH,
    ensures
        h as int == height_at(seed, pos.x * CHUNK_WIDTH + x, pos.z * CHUNK_WIDTH + z),
        MIN_FLOOR_HEIGHT <= h < MIN_FLOOR_HEIGHT + FLOOR_HEIGHT_RANGE,
{
    let wx: i64 = (pos.x as i64) * (CHUNK_WIDTH as i64) + (x as i64);
    let wz: i64 = (pos.z as i64) * (CHUNK_WIDTH as i64) + (z as i64);
    let m: i64 = wx * HEIGHT_MIX_X + wz * HEIGHT_MIX_Z + (seed as i64) + HEIGHT_MIX_SHIFT;
    MIN_FLOOR_HEIGHT + ((m % FLOOR_HEIGHT_RANGE) as u8)
}

/// Generates the chunk at `pos`: a pure, deterministic function of the seed
/// and the position, always yielding `chunk_gen_blocks(*gen, pos)`.
pub fn generate_chunk(gen: &WorldGenesisData, pos: ChunkPos) -> (r: ChunkData)
    ensures
        r.pos == pos,
        r.wf(),
        r.blocks@ == chunk_gen_blocks(*gen, pos),
{
    let mut blocks: Vec<BlockData> = Vec::with_capacity(BLOCKS_PER_CHUNK);
    for i in 0..BLOCKS_PER_CHUNK
        invariant
            blocks@.len() == i,
            forall|k: int| 0 <= k < i ==> blocks@[k] == gen_block_at(*gen, pos, k),
    {
        let p = LocalBlockPos::from_index(i);
        let h = column_height(gen.seed, pos, p.x(), p.z());
        let y = p.y();
        let type_id = if y > h {
            AIR_BLOCK_ID
        } else if y == h {
            4
        } else if y + 3 >= h {
            3
        } else {
            2
        };
        blocks.push(BlockData { type_id });
    }
    let r = ChunkData { pos, blocks };
    proof {
        assert(r.blocks@ =~= chunk_gen_blocks(*gen, pos));
    }
    r
}

/// Determinism: the block arrays of two chunks generated with the same seed
/// for the same position are identical.
pub proof fn lemma_generate_deterministic(
    a: ChunkData,
    b: ChunkData,
    gen: WorldGenesisData,
    pos: ChunkPos,
)
    requires
        a.blocks@ == chunk_gen_blocks(gen, pos),
        b.blocks@ == chunk_gen_blocks(gen, pos),
    ensures
        a.blocks@ == b.blocks@,
{
}

} // verus!
