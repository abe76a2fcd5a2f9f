//! Server-side chunk dispatcher.
//!
//! The server answers each request against its authoritative world state.
//! It stores a chunk only once a block update has touched it; a never-touched
//! chunk is exactly what the deterministic generator yields, so its delta is
//! empty and needs no stored state at all.

use vstd::prelude::*;

use crate::assoc::{
    assoc_lookup, distinct_keys, lemma_assoc_found, lemma_assoc_missing, lemma_assoc_push,
    lemma_assoc_update,
};
use crate::chunk::{
    diff_entries, lemma_diff_entries_len, lemma_diff_entries_self, lemma_diff_entries_wf,
    ChunkData, ChunkDeltaData, WorldGenesisData,
};
use crate::pos::ChunkPos;
use crate::protocol::{ServerMessage, ServerResponse};
use crate::worldgen::{chunk_gen_blocks, generate_chunk};
use crate::BLOCKS_PER_CHUNK;

verus! {

/// Authoritative server state: the generation parameters and the current
/// state of every chunk that a block update has ever touched.
pub struct ServerState {
    pub gen: WorldGenesisData,
    pub chunks: Vec<(ChunkPos, ChunkData)>,
}

impl ServerState {
    /// Each touched chunk is stored once, well-formed, under its own
    /// position.
    pub open spec fn wf(self) -> bool {
        &&& distinct_keys(self.chunks@)
        &&& forall|i: int|
            0 <= i < self.chunks@.len() ==> (#[trigger] self.chunks@[i]).1.wf()
                && self.chunks@[i].1.pos == self.chunks@[i].0
    }

    /// The authoritative block array of the chunk at `pos`: its stored
    /// state if a block update has touched it, the generated state
    /// otherwise.
    pub open spec fn authoritative_blocks(self, pos: ChunkPos) -> Seq<crate::chunk::BlockData> {
        match assoc_lookup(self.chunks@, pos) {
            Some(c) => c.blocks@,
            None => chunk_gen_blocks(self.gen, pos),
        }
    }

    /// A fresh server for a world with the given generation parameters: no
    /// chunk has been touched yet.
    pub fn new(gen: WorldGenesisData) -> (r: ServerState)
        ensures
            r.wf(),
            r.gen == gen,
            r.chunks@.len() == 0,
    {
        ServerState { gen, chunks: Vec::new() }
    }

    /// Index of the stored chunk at `pos`, if one exists.
    fn find_chunk(&self, pos: ChunkPos) -> (r: Option<usize>)
        ensures
            match r {
                Some(i) => i < self.chunks@.len() && self.chunks@[i as int].0 == pos && forall|
                    j: int,
                |
                    0 <= j < i ==> (#[trigger] self.chunks@[j]).0 != pos,
                None => forall|j: int|
                    0 <= j < self.chunks@.len() ==> (#[trigger] self.chunks@[j]).0 != pos,
            },
    {
        let n = self.chunks.len();
        for i in 0..n
            invariant
                n == self.chunks@.len(),
                forall|j: int| 0 <= j < i ==> (#[trigger] self.chunks@[j]).0 != pos,
        {
            if self.chunks[i].0 == pos {
                return Some(i);
            }
        }
        None
    }
}

/// Answers one request against the server state.
///
/// `LoadChunk` leaves the state untouched and returns the minimal delta of
/// the authoritative chunk from its generated state — empty for a chunk no
/// block update has touched. `BlockUpdate` overwrites exactly the addressed
/// block of the addressed chunk and acknowledges.
pub fn make_response(state: &mut ServerState, msg: &ServerMessage) -> (r: ServerResponse)
    requires
        old(state).wf(),
        msg.wf(),
    ensures
        final(state).wf(),
        final(state).gen == old(state).gen,
        match *msg {
            ServerMessage::LoadChunk(pos) => {
                &&& *final(state) == *old(state)
                &&& r matches ServerResponse::LoadChunkOK(d) && d.pos == pos && d.blocks@
                    == diff_entries(
                    chunk_gen_blocks(old(state).gen, pos),
                    old(state).authoritative_blocks(pos),
                    BLOCKS_PER_CHUNK as int,
                )
                &&& r.wf()
            },
            ServerMessage::BlockUpdate(pos, local, block) => {
                &&& r == ServerResponse::Ack
                &&& forall|q: ChunkPos|
                    final(state).authoritative_blocks(q) == if q == pos {
                        old(state).authoritative_blocks(q).update(local.to_index_spec(), block)
                    } else {
                        old(state).authoritative_blocks(q)
                    }
            },
        },
{
    match msg {
        ServerMessage::LoadChunk(pos) => {
            let generated = generate_chunk(&state.gen, *pos);
            let delta = match state.find_chunk(*pos) {
                Some(i) => {
                    proof {
                        lemma_assoc_found(state.chunks@, *pos, i as int);
                    }
                    crate::chunk::to_delta(&generated, &state.chunks[i].1)
                },
                None => {
                    proof {
                        lemma_assoc_missing(state.chunks@, *pos);
                        lemma_diff_entries_self(generated.blocks@, BLOCKS_PER_CHUNK as int);
                        assert(diff_entries(
                            chunk_gen_blocks(state.gen, *pos),
                            state.authoritative_blocks(*pos),
                            BLOCKS_PER_CHUNK as int,
                        ) =~= Seq::<(crate::pos::LocalBlockPos, crate::chunk::BlockData)>::empty());
                    }
                    ChunkDeltaData::empty(*pos)
                },
            };
            proof {
                lemma_diff_entries_len(
                    chunk_gen_blocks(state.gen, *pos),
                    state.authoritative_blocks(*pos),
                    BLOCKS_PER_CHUNK as int,
                );
            }
            ServerResponse::LoadChunkOK(delta)
        },
        ServerMessage::BlockUpdate(pos, local, block) => {
            let idx = local.to_index();
            match state.find_chunk(*pos) {
                Some(i) => {
                    proof {
                        lemma_assoc_found(state.chunks@, *pos, i as int);
                    }
                    let ghost entries0 = state.chunks@;
                    let ghost old_chunk = state.chunks@[i as int].1;
                    let entry = &mut state.chunks[i];
                    entry.1.blocks[idx] = *block;
                    proof {
                        assert(state.chunks@ =~= entries0.update(
                            i as int,
                            (*pos, state.chunks@[i as int].1),
                        ));
                        assert(state.chunks@[i as int].1.blocks@ == old_chunk.blocks@.update(
                            idx as int,
                            *block,
                        ));
                        assert forall|q: ChunkPos|
                            state.authoritative_blocks(q) == if q == *pos {
                                old(state).authoritative_blocks(q).update(
                                    local.to_index_spec(),
                                    *block,
                                )
                            } else {
                                old(state).authoritative_blocks(q)
                            } by {
                            lemma_assoc_update(
                                entries0,
                                i as int,
                                state.chunks@[i as int].1,
                                q,
                            );
                        }
                    }
                    ServerResponse::Ack
                },
                None => {
                    let mut fresh = generate_chunk(&state.gen, *pos);
                    fresh.blocks[idx] = *block;
                    let ghost entries0 = state.chunks@;
                    let ghost new_chunk = fresh;
                    state.chunks.push((*pos, fresh));
                    proof {
                        assert forall|q: ChunkPos|
                            state.authoritative_blocks(q) == if q == *pos {
                                old(state).authoritative_blocks(q).update(
                                    local.to_index_spec(),
                                    *block,
                                )
                            } else {
                                old(state).authoritative_blocks(q)
                            } by {
                            lemma_assoc_push(entries0, *pos, new_chunk, q);
                            if q == *pos {
                                lemma_assoc_missing(entries0, q);
                            }
                        }
                    }
                    ServerResponse::Ack
                },
            }
        },
    }
}

} // verus!
