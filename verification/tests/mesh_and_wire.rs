use cubegame::block::{default_registry, AIR_BLOCK_ID};
use cubegame::chunk::{BlockData, ChunkData, ChunkDeltaData};
use cubegame::mesher::{generate_chunk_meshes, Mesh, TextureAtlasKey};
use cubegame::pos::{ChunkPos, Direction, LocalBlockPos};
use cubegame::protocol::{DecodeError, ErrorMessage, ServerMessage, ServerResponse};
use cubegame::{BLOCKS_PER_CHUNK, CHUNK_WIDTH, WORLD_HEIGHT};

fn air_chunk(pos: ChunkPos) -> ChunkData {
    ChunkData {
        pos,
        blocks: vec![BlockData { type_id: AIR_BLOCK_ID }; BLOCKS_PER_CHUNK],
    }
}

fn face_count(meshes: &[Mesh]) -> (usize, usize) {
    let verts: usize = meshes.iter().map(|m| m.verts.len()).sum();
    let indices: usize = meshes.iter().map(|m| m.indices.len()).sum();
    (verts, indices)
}

#[test]
fn air_chunk_yields_no_batches() {
    let reg = default_registry();
    let chunk = air_chunk(ChunkPos { x: 0, z: 0 });
    let meshes = generate_chunk_meshes(&reg, &chunk);
    assert_eq!(meshes.len(), 0);
}

#[test]
fn stone_cube_emits_only_outer_faces() {
    let reg = default_registry();
    let mut chunk = air_chunk(ChunkPos { x: 0, z: 0 });
    // a 2x2x2 all-stone cube away from every chunk boundary
    for x in 4..6u8 {
        for y in 40..42u8 {
            for z in 4..6u8 {
                chunk.blocks[LocalBlockPos::new(x, y, z).to_index()] =
                    BlockData { type_id: 2 };
            }
        }
    }
    let meshes = generate_chunk_meshes(&reg, &chunk);
    // stone is uniform, so all its faces land in one batch
    assert_eq!(meshes.len(), 1);
    assert_eq!(meshes[0].tex_key, TextureAtlasKey::Block(2));
    // 24 outer faces: 4 vertices and 2 triangles each, no interior face
    let (verts, indices) = face_count(&meshes);
    assert_eq!(verts, 24 * 4);
    assert_eq!(indices, 24 * 6);
}

#[test]
fn fully_solid_chunk_emits_exactly_the_boundary() {
    let reg = default_registry();
    let chunk = ChunkData {
        pos: ChunkPos { x: 0, z: 0 },
        blocks: vec![BlockData { type_id: 2 }; BLOCKS_PER_CHUNK],
    };
    let meshes = generate_chunk_meshes(&reg, &chunk);
    assert_eq!(meshes.len(), 1);
    let w = CHUNK_WIDTH;
    let h = WORLD_HEIGHT;
    let boundary_faces: usize = 2 * w * w + 4 * w * h;
    let (verts, indices) = face_count(&meshes);
    assert_eq!(verts, boundary_faces * 4);
    assert_eq!(indices, boundary_faces * 6);
}

#[test]
fn single_stone_block_is_one_batch_of_six_faces() {
    let reg = default_registry();
    let mut chunk = air_chunk(ChunkPos { x: -3, z: 9 });
    chunk.blocks[LocalBlockPos::new(8, 100, 8).to_index()] = BlockData { type_id: 2 };
    let meshes = generate_chunk_meshes(&reg, &chunk);
    assert_eq!(meshes.len(), 1);
    assert_eq!(meshes[0].verts.len(), 24);
    assert_eq!(meshes[0].indices.len(), 36);
    // indices reference the vertex list and tile it in quads
    assert_eq!(&meshes[0].indices[0..6], &[0, 1, 2, 0, 2, 3]);
    assert_eq!(&meshes[0].indices[6..12], &[4, 5, 6, 4, 6, 7]);
    // world-space offset of the chunk
    assert_eq!(meshes[0].offset_x, -3 * CHUNK_WIDTH as i64);
    assert_eq!(meshes[0].offset_y, 0);
    assert_eq!(meshes[0].offset_z, 9 * CHUNK_WIDTH as i64);
}

#[test]
fn grass_block_batches_per_face_direction() {
    let reg = default_registry();
    let mut chunk = air_chunk(ChunkPos { x: 0, z: 0 });
    chunk.blocks[LocalBlockPos::new(3, 50, 3).to_index()] = BlockData { type_id: 4 };
    let meshes = generate_chunk_meshes(&reg, &chunk);
    // a top-side-bottom block keys each face direction separately
    assert_eq!(meshes.len(), 6);
    for m in &meshes {
        assert_eq!(m.verts.len(), 4);
        assert_eq!(m.indices.len(), 6);
        assert!(matches!(m.tex_key, TextureAtlasKey::BlockFace(4, _)));
    }
    assert_eq!(meshes[0].tex_key, TextureAtlasKey::BlockFace(4, Direction::PosX));
}

#[test]
fn occluded_face_is_not_emitted() {
    let reg = default_registry();
    let mut chunk = air_chunk(ChunkPos { x: 0, z: 0 });
    // two stone blocks side by side on the x axis: ten faces, not twelve
    chunk.blocks[LocalBlockPos::new(5, 60, 5).to_index()] = BlockData { type_id: 2 };
    chunk.blocks[LocalBlockPos::new(6, 60, 5).to_index()] = BlockData { type_id: 2 };
    let meshes = generate_chunk_meshes(&reg, &chunk);
    let (verts, indices) = face_count(&meshes);
    assert_eq!(verts, 10 * 4);
    assert_eq!(indices, 10 * 6);
}

#[test]
fn unregistered_type_degrades_to_the_fallback_key() {
    let reg = default_registry();
    let mut chunk = air_chunk(ChunkPos { x: 0, z: 0 });
    chunk.blocks[LocalBlockPos::new(1, 30, 1).to_index()] = BlockData { type_id: 99 };
    let meshes = generate_chunk_meshes(&reg, &chunk);
    assert_eq!(meshes.len(), 1);
    assert_eq!(meshes[0].tex_key, TextureAtlasKey::Null);
    assert_eq!(meshes[0].verts.len(), 24);
}

#[test]
fn message_round_trip_load_chunk() {
    let msg = ServerMessage::LoadChunk(ChunkPos { x: -3, z: 7 });
    let bytes = msg.encode();
    assert_eq!(ServerMessage::decode(&bytes), Ok(msg));
}

#[test]
fn message_round_trip_block_update() {
    let msg = ServerMessage::BlockUpdate(
        ChunkPos { x: i32::MIN, z: i32::MAX },
        LocalBlockPos::new(15, 255, 0),
        BlockData { type_id: 250 },
    );
    let bytes = msg.encode();
    assert_eq!(ServerMessage::decode(&bytes), Ok(msg));
}

#[test]
fn response_round_trip_ack_and_errors() {
    for resp in [
        ServerResponse::Ack,
        ServerResponse::Error(ErrorMessage::NoLoadedWorld),
        ServerResponse::Error(ErrorMessage::WorldDoesNotExist),
    ] {
        let bytes = resp.encode();
        assert_eq!(ServerResponse::decode(&bytes), Ok(resp));
    }
}

#[test]
fn response_round_trip_load_chunk_ok() {
    let delta = ChunkDeltaData {
        pos: ChunkPos { x: 12, z: -44 },
        blocks: vec![
            (LocalBlockPos::new(1, 1, 1), BlockData { type_id: 5 }),
            (LocalBlockPos::new(0, 255, 15), BlockData { type_id: 1 }),
        ],
    };
    let resp = ServerResponse::LoadChunkOK(delta);
    let bytes = resp.encode();
    assert_eq!(ServerResponse::decode(&bytes), Ok(resp));
}

#[test]
fn response_round_trip_empty_delta() {
    let resp = ServerResponse::LoadChunkOK(ChunkDeltaData::empty(ChunkPos { x: 0, z: 0 }));
    let bytes = resp.encode();
    assert_eq!(ServerResponse::decode(&bytes), Ok(resp));
}

#[test]
fn wire_bytes_are_pinned() {
    assert_eq!(ServerResponse::Ack.encode(), vec![0x91, 0x00]);
    assert_eq!(
        ServerResponse::Error(ErrorMessage::WorldDoesNotExist).encode(),
        vec![0x92, 0x01, 0x01]
    );
    assert_eq!(
        ServerMessage::LoadChunk(ChunkPos { x: 1, z: -2 }).encode(),
        vec![
            0x92, 0x00, // message: two-element array, variant 0
            0x92, // the position pair
            0xd2, 0x00, 0x00, 0x00, 0x01, // x = 1
            0xd2, 0xff, 0xff, 0xff, 0xfe, // z = -2, two's complement
        ]
    );
}

#[test]
fn malformed_bytes_are_rejected() {
    assert_eq!(ServerMessage::decode(&vec![]), Err(DecodeError::Malformed));
    assert_eq!(ServerMessage::decode(&vec![0x92]), Err(DecodeError::Malformed));
    assert_eq!(
        ServerMessage::decode(&vec![0x93, 0x00]),
        Err(DecodeError::Malformed)
    );
    assert_eq!(ServerResponse::decode(&vec![]), Err(DecodeError::Malformed));
    assert_eq!(
        ServerResponse::decode(&vec![0x92, 0x01, 0x07]),
        Err(DecodeError::Malformed)
    );

    // a truncated request
    let mut bytes = ServerMessage::LoadChunk(ChunkPos { x: 5, z: 5 }).encode();
    bytes.pop();
    assert_eq!(ServerMessage::decode(&bytes), Err(DecodeError::Malformed));

    // trailing bytes after a whole message
    let mut bytes = ServerMessage::LoadChunk(ChunkPos { x: 5, z: 5 }).encode();
    bytes.push(0x00);
    assert_eq!(ServerMessage::decode(&bytes), Err(DecodeError::Malformed));

    // a response whose delta is cut short
    let delta = ChunkDeltaData {
        pos: ChunkPos { x: 0, z: 0 },
        blocks: vec![(LocalBlockPos::new(1, 1, 1), BlockData { type_id: 5 })],
    };
    let mut bytes = ServerResponse::LoadChunkOK(delta).encode();
    bytes.truncate(bytes.len() - 4);
    assert_eq!(ServerResponse::decode(&bytes), Err(DecodeError::Malformed));

    // a local position outside the chunk
    let msg = ServerMessage::BlockUpdate(
        ChunkPos { x: 0, z: 0 },
        LocalBlockPos::new(1, 1, 1),
        BlockData { type_id: 5 },
    );
    let mut bytes = msg.encode();
    assert_eq!(bytes[14], 0xcc);
    assert_eq!(bytes[15], 1); // the x coordinate rides here
    bytes[15] = 20;
    assert_eq!(ServerMessage::decode(&bytes), Err(DecodeError::Malformed));
}
