use cubegame::chunk::{BlockData, ChunkDeltaData, WorldGenesisData};
use cubegame::pos::{ChunkPos, LocalBlockPos};
use cubegame::protocol::{ServerMessage, ServerResponse};
use cubegame::server::{make_response, ServerState};
use cubegame::streamer::{
    apply_load_response, chunks_to_load, desired_chunk_positions, unload_distant_chunks,
    LoadedChunk, StreamError, WorldData,
};
use cubegame::worldgen::generate_chunk;

#[test]
fn desired_set_respects_the_circular_radius() {
    let center = ChunkPos { x: 0, z: 0 };
    let desired = desired_chunk_positions(center, 4);
    // distance 3 < 4: inside
    assert!(desired.contains(&ChunkPos { x: 3, z: 0 }));
    // distance 5 >= 4: outside
    assert!(!desired.contains(&ChunkPos { x: 4, z: 3 }));
    assert!(desired.contains(&center));
    // matches the distance test position by position
    let mut expected: usize = 0;
    for dx in -4i64..5 {
        for dz in -4i64..5 {
            if dx * dx + dz * dz < 16 {
                expected += 1;
                assert!(desired.contains(&ChunkPos { x: dx as i32, z: dz as i32 }));
            }
        }
    }
    assert_eq!(desired.len(), expected);
}

#[test]
fn desired_set_is_centered_on_the_reference() {
    let center = ChunkPos { x: 100, z: -50 };
    let desired = desired_chunk_positions(center, 2);
    assert!(desired.contains(&ChunkPos { x: 101, z: -50 }));
    assert!(!desired.contains(&ChunkPos { x: 102, z: -50 }));
    assert!(!desired.contains(&ChunkPos { x: 0, z: 0 }));
}

#[test]
fn untouched_chunk_loads_as_generated() {
    // the client requests a chunk of a world never touched: the server
    // answers with an empty delta, and the materialized chunk equals the
    // generated one exactly
    let gen = WorldGenesisData { seed: 77 };
    let mut server = ServerState::new(gen);
    let pos = ChunkPos { x: 2, z: 2 };

    let request = ServerMessage::LoadChunk(pos).encode();
    let msg = ServerMessage::decode(&request).unwrap();
    let response = make_response(&mut server, &msg);
    let wire = response.encode();
    let response = ServerResponse::decode(&wire).unwrap();

    match response {
        ServerResponse::LoadChunkOK(delta) => {
            assert_eq!(delta.pos, pos);
            assert_eq!(delta.blocks.len(), 0);
            let loaded = LoadedChunk::load_from_delta(&gen, &delta);
            assert_eq!(loaded.data.blocks, generate_chunk(&gen, pos).blocks);
            assert!(loaded.needs_remesh);
        }
        other => panic!("expected LoadChunkOK, got {:?}", other),
    }
}

#[test]
fn block_update_shows_up_in_the_next_delta() {
    // a block update followed by a load of the same chunk yields a delta
    // with exactly that one override
    let gen = WorldGenesisData { seed: 0 };
    let mut server = ServerState::new(gen);
    let pos = ChunkPos { x: 0, z: 0 };
    let local = LocalBlockPos::new(1, 1, 1);
    let block = BlockData { type_id: 5 };

    let ack = make_response(&mut server, &ServerMessage::BlockUpdate(pos, local, block));
    assert_eq!(ack, ServerResponse::Ack);

    let response = make_response(&mut server, &ServerMessage::LoadChunk(pos));
    match response {
        ServerResponse::LoadChunkOK(delta) => {
            assert_eq!(delta.pos, pos);
            assert_eq!(delta.blocks, vec![(local, block)]);
        }
        other => panic!("expected LoadChunkOK, got {:?}", other),
    }
}

#[test]
fn block_updates_to_the_same_position_keep_the_last() {
    let gen = WorldGenesisData { seed: 5 };
    let mut server = ServerState::new(gen);
    let pos = ChunkPos { x: -4, z: 9 };
    let local = LocalBlockPos::new(3, 200, 8);
    make_response(&mut server, &ServerMessage::BlockUpdate(pos, local, BlockData { type_id: 2 }));
    make_response(&mut server, &ServerMessage::BlockUpdate(pos, local, BlockData { type_id: 5 }));
    let response = make_response(&mut server, &ServerMessage::LoadChunk(pos));
    match response {
        ServerResponse::LoadChunkOK(delta) => {
            assert_eq!(delta.blocks, vec![(local, BlockData { type_id: 5 })]);
        }
        other => panic!("expected LoadChunkOK, got {:?}", other),
    }
}

#[test]
fn update_back_to_generated_leaves_an_empty_delta() {
    // the delta is the minimal difference from the generated state, so
    // restoring a block erases it from the next delta
    let gen = WorldGenesisData { seed: 13 };
    let mut server = ServerState::new(gen);
    let pos = ChunkPos { x: 1, z: 0 };
    let local = LocalBlockPos::new(9, 90, 9);
    let generated = generate_chunk(&gen, pos);
    let original = generated.blocks[local.to_index()];

    make_response(&mut server, &ServerMessage::BlockUpdate(pos, local, BlockData { type_id: 5 }));
    make_response(&mut server, &ServerMessage::BlockUpdate(pos, local, original));
    let response = make_response(&mut server, &ServerMessage::LoadChunk(pos));
    match response {
        ServerResponse::LoadChunkOK(delta) => assert_eq!(delta.blocks.len(), 0),
        other => panic!("expected LoadChunkOK, got {:?}", other),
    }
}

#[test]
fn streaming_tick_loads_and_unloads_by_distance() {
    let gen = WorldGenesisData { seed: 1 };
    let mut server = ServerState::new(gen);
    let mut world = WorldData::new();
    let center = ChunkPos { x: 0, z: 0 };

    // one policy tick: request every desired chunk, materialize each reply
    let todo = chunks_to_load(&world, center, 2);
    assert!(!todo.is_empty());
    for pos in todo {
        let response = make_response(&mut server, &ServerMessage::LoadChunk(pos));
        assert_eq!(apply_load_response(&mut world, &gen, pos, &response), Ok(()));
    }
    assert!(world.contains_chunk(center));
    assert!(world.contains_chunk(ChunkPos { x: 1, z: 0 }));
    // everything desired is now loaded
    assert!(chunks_to_load(&world, center, 2).is_empty());

    // the reference moves: distant chunks are dropped, near ones kept
    let moved = ChunkPos { x: 10, z: 0 };
    unload_distant_chunks(&mut world, moved, 2);
    assert!(!world.contains_chunk(center));
    assert!(!world.contains_chunk(ChunkPos { x: 1, z: 0 }));

    // and the next tick wants the chunks around the new reference
    let todo = chunks_to_load(&world, moved, 2);
    assert!(todo.contains(&moved));
}

#[test]
fn wrong_response_aborts_the_loading_pass() {
    let gen = WorldGenesisData { seed: 4 };
    let mut world = WorldData::new();
    let pos = ChunkPos { x: 0, z: 0 };
    // an acknowledgement is not a load response
    assert_eq!(
        apply_load_response(&mut world, &gen, pos, &ServerResponse::Ack),
        Err(StreamError::UnexpectedResponse)
    );
    // a load response for another chunk does not match either
    let delta = ChunkDeltaData::empty(ChunkPos { x: 5, z: 5 });
    assert_eq!(
        apply_load_response(&mut world, &gen, pos, &ServerResponse::LoadChunkOK(delta)),
        Err(StreamError::UnexpectedResponse)
    );
    // nothing was partially applied
    assert!(!world.contains_chunk(pos));
    assert!(!world.contains_chunk(ChunkPos { x: 5, z: 5 }));
}

#[test]
fn unload_keeps_chunks_inside_the_radius() {
    let gen = WorldGenesisData { seed: 2 };
    let mut world = WorldData::new();
    let near = ChunkPos { x: 1, z: 1 };
    let far = ChunkPos { x: 30, z: 30 };
    for pos in [near, far] {
        let delta = ChunkDeltaData::empty(pos);
        world.insert_chunk(pos, LoadedChunk::load_from_delta(&gen, &delta));
    }
    unload_distant_chunks(&mut world, ChunkPos { x: 0, z: 0 }, 4);
    assert!(world.contains_chunk(near));
    assert!(!world.contains_chunk(far));
}
