use cubegame::block::{default_registry, BlockTextureLayout, BlockType, AIR_BLOCK_ID};
use cubegame::chunk::{apply_delta, to_delta, BlockData, ChunkDeltaData, WorldGenesisData};
use cubegame::framerate::FramerateManager;
use cubegame::pos::{ChunkPos, Direction, Directions, LocalBlockPos};
use cubegame::worldgen::generate_chunk;
use cubegame::{BLOCKS_PER_CHUNK, CHUNK_WIDTH, WORLD_HEIGHT};

#[test]
fn generate_is_deterministic() {
    let gen = WorldGenesisData { seed: 1234 };
    let pos = ChunkPos { x: -7, z: 11 };
    let a = generate_chunk(&gen, pos);
    let b = generate_chunk(&gen, pos);
    assert_eq!(a.blocks, b.blocks);
    assert_eq!(a.pos, b.pos);
}

#[test]
fn generate_depends_on_seed_and_position() {
    let pos = ChunkPos { x: 0, z: 0 };
    let a = generate_chunk(&WorldGenesisData { seed: 1 }, pos);
    let b = generate_chunk(&WorldGenesisData { seed: 2 }, pos);
    assert_ne!(a.blocks, b.blocks);
    let c = generate_chunk(&WorldGenesisData { seed: 1 }, ChunkPos { x: 1, z: 0 });
    assert_ne!(a.blocks, c.blocks);
}

#[test]
fn generated_column_is_layered() {
    let gen = WorldGenesisData { seed: 42 };
    let chunk = generate_chunk(&gen, ChunkPos { x: 3, z: -2 });
    // find the top non-air block of column (5, 9)
    let mut top: usize = 0;
    for y in 0..WORLD_HEIGHT {
        let idx = LocalBlockPos::new(5, y as u8, 9).to_index();
        if chunk.blocks[idx].type_id != AIR_BLOCK_ID {
            top = y;
        }
    }
    assert!(top >= 20 && top <= 40);
    // grass on top, three layers of dirt underneath, stone below, air above
    let at = |y: usize| chunk.blocks[LocalBlockPos::new(5, y as u8, 9).to_index()].type_id;
    assert_eq!(at(top), 4);
    for y in (top - 3)..top {
        assert_eq!(at(y), 3);
    }
    for y in 0..(top - 3) {
        assert_eq!(at(y), 2);
    }
    for y in (top + 1)..WORLD_HEIGHT {
        assert_eq!(at(y), AIR_BLOCK_ID);
    }
}

#[test]
fn delta_round_trip_reconstructs_edits() {
    let gen = WorldGenesisData { seed: 9 };
    let pos = ChunkPos { x: 4, z: 4 };
    let original = generate_chunk(&gen, pos);
    let mut edited = generate_chunk(&gen, pos);
    edited.blocks[LocalBlockPos::new(1, 30, 1).to_index()] = BlockData { type_id: 5 };
    edited.blocks[LocalBlockPos::new(0, 0, 0).to_index()] = BlockData { type_id: AIR_BLOCK_ID };
    edited.blocks[LocalBlockPos::new(15, 255, 15).to_index()] = BlockData { type_id: 2 };

    let delta = to_delta(&original, &edited);
    assert_eq!(delta.blocks.len(), 3);

    let mut rebuilt = generate_chunk(&gen, pos);
    apply_delta(&mut rebuilt, &delta);
    assert_eq!(rebuilt.blocks, edited.blocks);
}

#[test]
fn to_delta_is_minimal_and_carries_new_values() {
    let gen = WorldGenesisData { seed: 0 };
    let pos = ChunkPos { x: 0, z: 0 };
    let original = generate_chunk(&gen, pos);
    let mut edited = generate_chunk(&gen, pos);
    let p = LocalBlockPos::new(2, 100, 3);
    edited.blocks[p.to_index()] = BlockData { type_id: 5 };
    let delta = to_delta(&original, &edited);
    assert_eq!(delta.blocks.len(), 1);
    assert_eq!(delta.blocks[0].0, p);
    assert_eq!(delta.blocks[0].1, BlockData { type_id: 5 });
}

#[test]
fn apply_delta_last_write_wins() {
    let gen = WorldGenesisData { seed: 3 };
    let pos = ChunkPos { x: 1, z: 1 };
    let mut chunk = generate_chunk(&gen, pos);
    let p = LocalBlockPos::new(7, 50, 7);
    let delta = ChunkDeltaData {
        pos,
        blocks: vec![
            (p, BlockData { type_id: 2 }),
            (p, BlockData { type_id: 5 }),
        ],
    };
    apply_delta(&mut chunk, &delta);
    assert_eq!(chunk.blocks[p.to_index()].type_id, 5);
}

#[test]
fn apply_delta_is_idempotent() {
    let gen = WorldGenesisData { seed: 8 };
    let pos = ChunkPos { x: -1, z: 2 };
    let mut once = generate_chunk(&gen, pos);
    let delta = ChunkDeltaData {
        pos,
        blocks: vec![
            (LocalBlockPos::new(0, 10, 0), BlockData { type_id: 5 }),
            (LocalBlockPos::new(3, 10, 3), BlockData { type_id: AIR_BLOCK_ID }),
        ],
    };
    apply_delta(&mut once, &delta);
    let mut twice = generate_chunk(&gen, pos);
    apply_delta(&mut twice, &delta);
    apply_delta(&mut twice, &delta);
    assert_eq!(once.blocks, twice.blocks);
}

#[test]
fn empty_delta_leaves_chunk_as_generated() {
    let gen = WorldGenesisData { seed: 21 };
    let pos = ChunkPos { x: 2, z: 2 };
    let mut chunk = generate_chunk(&gen, pos);
    let delta = ChunkDeltaData::empty(pos);
    apply_delta(&mut chunk, &delta);
    assert_eq!(chunk.blocks, generate_chunk(&gen, pos).blocks);
    assert_eq!(delta.blocks.len(), 0);
}

#[test]
fn index_bijection_holds_for_every_index() {
    for i in 0..BLOCKS_PER_CHUNK {
        let p = LocalBlockPos::from_index(i);
        assert_eq!(p.to_index(), i);
    }
}

#[test]
fn index_bijection_holds_for_positions() {
    for x in 0..CHUNK_WIDTH as u8 {
        for z in 0..CHUNK_WIDTH as u8 {
            for y in [0u8, 1, 100, 255] {
                let p = LocalBlockPos::new(x, y, z);
                assert_eq!(LocalBlockPos::from_index(p.to_index()), p);
            }
        }
    }
}

#[test]
fn index_layout_is_y_outermost() {
    assert_eq!(LocalBlockPos::new(0, 0, 0).to_index(), 0);
    assert_eq!(LocalBlockPos::new(1, 0, 0).to_index(), 1);
    assert_eq!(LocalBlockPos::new(0, 0, 1).to_index(), CHUNK_WIDTH);
    assert_eq!(LocalBlockPos::new(0, 1, 0).to_index(), CHUNK_WIDTH * CHUNK_WIDTH);
    assert_eq!(
        LocalBlockPos::new(15, 255, 15).to_index(),
        BLOCKS_PER_CHUNK - 1
    );
}

#[test]
fn new_local_pos_wraps_x_and_z_into_the_chunk() {
    let p = LocalBlockPos::new(20, 7, 18);
    assert_eq!(p.x(), 4);
    assert_eq!(p.y(), 7);
    assert_eq!(p.z(), 2);
}

#[test]
fn neighbors_at_chunk_corners() {
    let origin = LocalBlockPos::new(0, 0, 0);
    assert!(origin.get_neighbor(Direction::NegX).is_none());
    assert!(origin.get_neighbor(Direction::NegY).is_none());
    assert!(origin.get_neighbor(Direction::NegZ).is_none());
    assert_eq!(
        origin.get_neighbor(Direction::PosX),
        Some(LocalBlockPos::new(1, 0, 0))
    );
    assert_eq!(
        origin.get_neighbor(Direction::PosY),
        Some(LocalBlockPos::new(0, 1, 0))
    );
    assert_eq!(
        origin.get_neighbor(Direction::PosZ),
        Some(LocalBlockPos::new(0, 0, 1))
    );
    let far = LocalBlockPos::new(15, 255, 15);
    assert!(far.get_neighbor(Direction::PosX).is_none());
    assert!(far.get_neighbor(Direction::PosY).is_none());
    assert!(far.get_neighbor(Direction::PosZ).is_none());
    assert_eq!(
        far.get_neighbor(Direction::NegY),
        Some(LocalBlockPos::new(15, 254, 15))
    );
}

#[test]
fn registry_resolves_ids_and_falls_back() {
    let reg = default_registry();
    assert_eq!(reg.types.len(), 5);
    let stone = BlockType::from_id(&reg, 2);
    assert_eq!(stone.id, 2);
    assert!(matches!(&stone.texture_layout, BlockTextureLayout::Uniform(t) if t == "stone_block.png"));
    let air = BlockType::from_id(&reg, AIR_BLOCK_ID);
    assert!(air.is_air());
    assert!(matches!(air.texture_layout, BlockTextureLayout::NoTexture));
    // an unregistered id resolves to the fallback entry
    let unknown = BlockType::from_id(&reg, 99);
    assert_eq!(unknown.id, 0);
    assert!(!unknown.is_air());
    let grass = BlockType::from_id(&reg, 4);
    assert!(matches!(
        &grass.texture_layout,
        BlockTextureLayout::TopSideBottom { top, sides, bottom }
            if top == "grass_block_top.png" && sides == "grass_block_side.png" && bottom == "dirt_block.png"
    ));
}

#[test]
fn direction_sets_hold_and_drop_flags() {
    let dirs = [
        Direction::PosX,
        Direction::NegX,
        Direction::PosY,
        Direction::NegY,
        Direction::PosZ,
        Direction::NegZ,
    ];
    let all = Directions::all_flags();
    let none = Directions::none();
    for d in dirs {
        assert!(all.contains(d));
        assert!(!none.contains(d));
    }
    let removed = all.without(Direction::PosY);
    assert!(!removed.contains(Direction::PosY));
    assert!(removed.contains(Direction::NegY));
    assert!(removed.contains(Direction::PosX));
}

#[test]
fn single_flag_set_converts_to_its_direction() {
    let only = Directions { pos_z: true, ..Directions::none() };
    assert_eq!(Direction::from(only), Direction::PosZ);
    // with several flags set, the first in canonical order wins
    assert_eq!(Direction::from(Directions::all_flags()), Direction::PosX);
    assert_eq!(Direction::from(Directions::none()), Direction::NegZ);
}

#[test]
fn framerate_pacing_and_counting() {
    let mut fps = FramerateManager::new();
    assert_eq!(fps.min_frame_time, 0);
    fps.set_max_fps(60);
    assert_eq!(fps.min_frame_time, 16666);
    assert_eq!(fps.sleep_time(10000), 6666);
    assert_eq!(fps.sleep_time(20000), 0);
    let dt = fps.tick(16666);
    assert_eq!(dt, 16666);
    assert_eq!(fps.fps_counter, 1);
    // one second later the figure refreshes to the frames seen so far
    let _ = fps.tick(1_100_000);
    assert_eq!(fps.current_fps, 1);
    assert_eq!(fps.fps_counter, 1);
}
