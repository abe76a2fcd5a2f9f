//! Voxel chunk world core: chunk data with deterministic generation and
//! delta application, face-culling mesh generation, a binary client/server
//! chunk protocol, and the chunk streaming policy.

use vstd::prelude::*;

pub mod assoc;
pub mod block;
pub mod chunk;
pub mod framerate;
pub mod mesher;
pub mod pos;
pub mod protocol;
pub mod server;
pub mod streamer;
pub mod worldgen;

verus! {

/// Width (x and z extent) of a chunk, in blocks.
pub const CHUNK_WIDTH: usize = 16;

/// Height (y extent) of a chunk, in blocks.
pub const WORLD_HEIGHT: usize = 256;

/// Total number of blocks held by one chunk.
pub const BLOCKS_PER_CHUNK: usize = CHUNK_WIDTH * CHUNK_WIDTH * WORLD_HEIGHT;

/// Identifier of a block type.
pub type BlockTypeId = u8;

} // verus!
