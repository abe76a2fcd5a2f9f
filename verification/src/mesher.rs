//! Face-culling mesh generation.
//!
//! For every non-air block and each of the six face directions, a face is
//! emitted exactly when the neighbor in that direction is outside the chunk
//! or is air: a face fully occluded by a solid neighbor is never emitted.
//! Emitted faces are grouped into one batch per texture key, in order of
//! first appearance; each face contributes four vertices (a unit quad) and
//! six triangle indices.

use vstd::prelude::*;

use crate::block::{BlockRegistry, BlockTextureLayout, BlockType, AIR_BLOCK_ID};
use crate::chunk::{BlockData, ChunkData};
use crate::pos::{Direction, LocalBlockPos};
use crate::{BlockTypeId, BLOCKS_PER_CHUNK, CHUNK_WIDTH};
use vstd::arithmetic::div_mod::lemma_fundamental_div_mod_converse;

verus! {

/// Key identifying the texture a batch of faces is drawn with.
#[derive(Clone, Copy, Debug, PartialEq, Eq, Structural, Hash)]
pub enum TextureAtlasKey {
    /// All faces of a uniform block type.
    Block(BlockTypeId),
    /// One specific face direction of a non-uniform block type.
    BlockFace(BlockTypeId, Direction),
    /// The fallback texture.
    Null,
}

/// One mesh vertex: a corner of a block face, in block coordinates local to
/// the chunk, with its texture coordinate (each face maps the full texture).
#[derive(Clone, Copy, Debug, PartialEq, Eq, Structural)]
pub struct MeshVert {
    pub x: u16,
    pub y: u16,
    pub z: u16,
    pub u: u8,
    pub v: u8,
}

/// One batch: all faces of a chunk sharing a texture key, as a vertex list
/// and a triangle index list, plus the chunk-space offset that places the
/// batch in the world.
#[derive(Clone, Debug)]
pub struct Mesh {
    pub verts: Vec<MeshVert>,
    pub indices: Vec<u32>,
    pub offset_x: i64,
    pub offset_y: i64,
    pub offset_z: i64,
    pub tex_key: TextureAtlasKey,
}

/// An emitted face: its texture key, owning block position, and direction.
pub type FaceInfo = (TextureAtlasKey, LocalBlockPos, Direction);

/// Whether the face of block `i` in direction number `d` is emitted: the
/// block is not air, and the neighbor in that direction is outside the chunk
/// or is air.
pub open spec fn face_visible(blocks: Seq<BlockData>, i: int, d: int) -> bool {
    let p = LocalBlockPos::from_index_spec(i);
    blocks[i].type_id != AIR_BLOCK_ID && match p.neighbor_spec(Direction::from_index_spec(d)) {
        Option::None => true,
        Option::Some(q) => blocks[q.to_index_spec()].type_id == AIR_BLOCK_ID,
    }
}

/// Texture key the face of block `i` in direction number `d` renders with:
/// uniform block types share one key for all faces, any other registered
/// layout keys each face direction separately, and an unregistered type id
/// degrades to the fallback key.
pub open spec fn face_key(
    reg: BlockRegistry,
    blocks: Seq<BlockData>,
    i: int,
    d: int,
) -> TextureAtlasKey {
    match crate::block::lookup_in(reg.types@, blocks[i].type_id) {
        Option::None => TextureAtlasKey::Null,
        Option::Some(bt) => match bt.texture_layout {
            BlockTextureLayout::Uniform(_) => TextureAtlasKey::Block(blocks[i].type_id),
            _ => TextureAtlasKey::BlockFace(blocks[i].type_id, Direction::from_index_spec(d)),
        },
    }
}

/// The stream of emitted faces among the first `t` of the `6 *
/// BLOCKS_PER_CHUNK` candidate faces, in canonical order: by block index,
/// then by direction number.
pub open spec fn faces_upto(reg: BlockRegistry, blocks: Seq<BlockData>, t: int) -> Seq<FaceInfo>
    decreases t,
{
    if t <= 0 {
        Seq::empty()
    } else {
        let pre = faces_upto(reg, blocks, t - 1);
        let i = (t - 1) / 6;
        let d = (t - 1) % 6;
        if face_visible(blocks, i, d) {
            pre.push(
                (
                    face_key(reg, blocks, i, d),
                    LocalBlockPos::from_index_spec(i),
                    Direction::from_index_spec(d),
                ),
            )
        } else {
            pre
        }
    }
}

/// All emitted faces of a chunk, in canonical order.
pub open spec fn chunk_faces(reg: BlockRegistry, blocks: Seq<BlockData>) -> Seq<FaceInfo> {
    faces_upto(reg, blocks, 6 * BLOCKS_PER_CHUNK as int)
}

/// The texture keys of a face stream, in order of first appearance.
pub open spec fn keys_of(faces: Seq<FaceInfo>) -> Seq<TextureAtlasKey>
    decreases faces.len(),
{
    if faces.len() == 0 {
        Seq::empty()
    } else {
        let pre = keys_of(faces.drop_last());
        if pre.contains(faces.last().0) {
            pre
        } else {
            pre.push(faces.last().0)
        }
    }
}

/// The faces of a stream carrying the texture key `k`, in stream order.
pub open spec fn faces_with_key(faces: Seq<FaceInfo>, k: TextureAtlasKey) -> Seq<FaceInfo>
    decreases faces.len(),
{
    if faces.len() == 0 {
        Seq::empty()
    } else {
        let pre = faces_with_key(faces.drop_last(), k);
        if faces.last().0 == k {
            pre.push(faces.last())
        } else {
            pre
        }
    }
}

/// The four corners of the face of the block at `p` in direction `d`, as a
/// unit quad wound consistently outward, with texture coordinates covering
/// the full texture.
pub open spec fn face_verts(p: LocalBlockPos, d: Direction) -> Seq<MeshVert> {
    let x0 = p.x as u16;
    let x1 = (p.x + 1) as u16;
    let y0 = p.y as u16;
    let y1 = (p.y + 1) as u16;
    let z0 = p.z as u16;
    let z1 = (p.z + 1) as u16;
    match d {
        Direction::PosX => seq![
            MeshVert { x: x1, y: y0, z: z1, u: 0, v: 1 },
            MeshVert { x: x1, y: y0, z: z0, u: 1, v: 1 },
            MeshVert { x: x1, y: y1, z: z0, u: 1, v: 0 },
            MeshVert { x: x1, y: y1, z: z1, u: 0, v: 0 },
        ],
        Direction::NegX => seq![
            MeshVert { x: x0, y: y0, z: z0, u: 0, v: 1 },
            MeshVert { x: x0, y: y0, z: z1, u: 1, v: 1 },
            MeshVert { x: x0, y: y1, z: z1, u: 1, v: 0 },
            MeshVert { x: x0, y: y1, z: z0, u: 0, v: 0 },
        ],
        Direction::PosY => seq![
            MeshVert { x: x0, y: y1, z: z1, u: 0, v: 1 },
            MeshVert { x: x1, y: y1, z: z1, u: 1, v: 1 },
            MeshVert { x: x1, y: y1, z: z0, u: 1, v: 0 },
            MeshVert { x: x0, y: y1, z: z0, u: 0, v: 0 },
        ],
        Direction::NegY => seq![
            MeshVert { x: x0, y: y0, z: z0, u: 0, v: 1 },
            MeshVert { x: x1, y: y0, z: z0, u: 1, v: 1 },
            MeshVert { x: x1, y: y0, z: z1, u: 1, v: 0 },
            MeshVert { x: x0, y: y0, z: z1, u: 0, v: 0 },
        ],
        Direction::PosZ => seq![
            MeshVert { x: x0, y: y0, z: z1, u: 0, v: 1 },
            MeshVert { x: x1, y: y0, z: z1, u: 1, v: 1 },
            MeshVert { x: x1, y: y1, z: z1, u: 1, v: 0 },
            MeshVert { x: x0, y: y1, z: z1, u: 0, v: 0 },
        ],
        Direction::NegZ => seq![
            MeshVert { x: x1, y: y0, z: z0, u: 0, v: 1 },
            MeshVert { x: x0, y: y0, z: z0, u: 1, v: 1 },
            MeshVert { x: x0, y: y1, z: z0, u: 1, v: 0 },
            MeshVert { x: x1, y: y1, z: z0, u: 0, v: 0 },
        ],
    }
}

/// The vertex stream of a face list: four corners per face, in face order.
pub open spec fn verts_of_faces(faces: Seq<FaceInfo>) -> Seq<MeshVert>
    decreases faces.len(),
{
    if faces.len() == 0 {
        Seq::empty()
    } else {
        verts_of_faces(faces.drop_last()) + face_verts(faces.last().1, faces.last().2)
    }
}

/// The two triangles of face number `j` of a batch, as indices into the
/// batch's vertex list.
pub open spec fn face_indices(j: int) -> Seq<u32> {
    seq![
        (4 * j) as u32,
        (4 * j + 1) as u32,
        (4 * j + 2) as u32,
        (4 * j) as u32,
        (4 * j + 2) as u32,
        (4 * j + 3) as u32,
    ]
}

/// The index stream of a batch holding `nfaces` faces.
pub open spec fn quad_indices(nfaces: int) -> Seq<u32>
    decreases nfaces,
{
    if nfaces <= 0 {
        Seq::empty()
    } else {
        quad_indices(nfaces - 1) + face_indices(nfaces - 1)
    }
}

/// A face stream never emits more faces than candidates.
pub proof fn lemma_faces_upto_len(reg: BlockRegistry, blocks: Seq<BlockData>, t: int)
    ensures
        faces_upto(reg, blocks, t).len() <= if t >= 0 {
            t
        } else {
            0
        },
    decreases t,
{
    if t > 0 {
        lemma_faces_upto_len(reg, blocks, t - 1);
    }
}

/// Appends the four corner vertices of one face.
fn push_face_verts(verts: &mut Vec<MeshVert>, p: LocalBlockPos, dir: Direction)
    ensures
        final(verts)@ == old(verts)@ + face_verts(p, dir),
{
    let x0 = p.x() as u16;
    let x1 = p.x() as u16 + 1;
    let y0 = p.y() as u16;
    let y1 = p.y() as u16 + 1;
    let z0 = p.z() as u16;
    let z1 = p.z() as u16 + 1;
    match dir {
        Direction::PosX => {
            verts.push(MeshVert { x: x1, y: y0, z: z1, u: 0, v: 1 });
            verts.push(MeshVert { x: x1, y: y0, z: z0, u: 1, v: 1 });
            verts.push(MeshVert { x: x1, y: y1, z: z0, u: 1, v: 0 });
            verts.push(MeshVert { x: x1, y: y1, z: z1, u: 0, v: 0 });
        },
        Direction::NegX => {
            verts.push(MeshVert { x: x0, y: y0, z: z0, u: 0, v: 1 });
            verts.push(MeshVert { x: x0, y: y0, z: z1, u: 1, v: 1 });
            verts.push(MeshVert { x: x0, y: y1, z: z1, u: 1, v: 0 });
            verts.push(MeshVert { x: x0, y: y1, z: z0, u: 0, v: 0 });
        },
        Direction::PosY => {
            verts.push(MeshVert { x: x0, y: y1, z: z1, u: 0, v: 1 });
            verts.push(MeshVert { x: x1, y: y1, z: z1, u: 1, v: 1 });
            verts.push(MeshVert { x: x1, y: y1, z: z0, u: 1, v: 0 });
            verts.push(MeshVert { x: x0, y: y1, z: z0, u: 0, v: 0 });
        },
        Direction::NegY => {
            verts.push(MeshVert { x: x0, y: y0, z: z0, u: 0, v: 1 });
            verts.push(MeshVert { x: x1, y: y0, z: z0, u: 1, v: 1 });
            verts.push(MeshVert { x: x1, y: y0, z: z1, u: 1, v: 0 });
            verts.push(MeshVert { x: x0, y: y0, z: z1, u: 0, v: 0 });
        },
        Direction::PosZ => {
            verts.push(MeshVert { x: x0, y: y0, z: z1, u: 0, v: 1 });
            verts.push(MeshVert { x: x1, y: y0, z: z1, u: 1, v: 1 });
            verts.push(MeshVert { x: x1, y: y1, z: z1, u: 1, v: 0 });
            verts.push(MeshVert { x: x0, y: y1, z: z1, u: 0, v: 0 });
        },
        Direction::NegZ => {
            verts.push(MeshVert { x: x1, y: y0, z: z0, u: 0, v: 1 });
            verts.push(MeshVert { x: x0, y: y0, z: z0, u: 1, v: 1 });
            verts.push(MeshVert { x: x0, y: y1, z: z0, u: 1, v: 0 });
            verts.push(MeshVert { x: x1, y: y1, z: z0, u: 0, v: 0 });
        },
    }
    proof {
        assert(verts@ =~= old(verts)@ + face_verts(p, dir));
    }
}

/// Appends the six indices of the two triangles of face number `nfaces`.
fn push_face_indices(indices: &mut Vec<u32>, nfaces: usize)
    requires
        old(indices)@ == quad_indices(nfaces as int),
        nfaces < 6 * BLOCKS_PER_CHUNK,
    ensures
        final(indices)@ == quad_indices(nfaces as int + 1),
{
    let base: u32 = (4 * nfaces) as u32;
    indices.push(base);
    indices.push(base + 1);
    indices.push(base + 2);
    indices.push(base);
    indices.push(base + 2);
    indices.push(base + 3);
    proof {
        assert(indices@ =~= quad_indices(nfaces as int) + face_indices(nfaces as int));
    }
}

/// Whether `keys` already holds `k`.
fn keys_contain(keys: &Vec<TextureAtlasKey>, k: TextureAtlasKey) -> (r: bool)
    ensures
        r == keys@.contains(k),
{
    let n = keys.len();
    for i in 0..n
        invariant
            n == keys@.len(),
            forall|j: int| 0 <= j < i ==> keys@[j] != k,
    {
        if keys[i] == k {
            return true;
        }
    }
    false
}

/// What it means for `out` to be the mesh batches of a chunk: one batch per
/// texture key of the chunk's emitted faces, in order of first appearance;
/// each batch holds exactly the four corner vertices and six triangle
/// indices of each emitted face with its key, in face order, and the
/// chunk's world-space offset.
pub open spec fn is_batches_for(reg: BlockRegistry, data: ChunkData, out: Seq<Mesh>) -> bool {
    let faces = chunk_faces(reg, data.blocks@);
    let keys = keys_of(faces);
    &&& out.len() == keys.len()
    &&& forall|j: int| 0 <= j < keys.len() ==> (#[trigger] out[j]).tex_key == keys[j]
    &&& forall|j: int|
        0 <= j < keys.len() ==> (#[trigger] out[j]).verts@ == verts_of_faces(
            faces_with_key(faces, keys[j]),
        )
    &&& forall|j: int|
        0 <= j < keys.len() ==> (#[trigger] out[j]).indices@ == quad_indices(
            faces_with_key(faces, keys[j]).len() as int,
        )
    &&& forall|j: int|
        0 <= j < keys.len() ==> {
            &&& (#[trigger] out[j]).offset_x == data.pos.x * CHUNK_WIDTH
            &&& out[j].offset_y == 0
            &&& out[j].offset_z == data.pos.z * CHUNK_WIDTH
        }
}

/// Turns a chunk's blocks into mesh batches, one per texture key in order of
/// first appearance. Each batch holds exactly the emitted faces with its
/// key, four vertices and six indices per face, and the chunk's world-space
/// offset.
pub fn generate_chunk_meshes(registry: &BlockRegistry, data: &ChunkData) -> (out: Vec<Mesh>)
    requires
        registry.wf(),
        data.wf(),
    ensures
        is_batches_for(*registry, *data, out@),
{
    let ghost reg = *registry;
    let ghost blocks = data.blocks@;

    // Collect the emitted faces in canonical order.
    let mut faces: Vec<FaceInfo> = Vec::new();
    for i in 0..BLOCKS_PER_CHUNK
        invariant
            registry.wf(),
            data.wf(),
            reg == *registry,
            blocks == data.blocks@,
            faces@ == faces_upto(reg, blocks, 6 * i as int),
    {
        let block = data.blocks[i];
        let p = LocalBlockPos::from_index(i);
        for d in 0..6u8
            invariant
                registry.wf(),
                data.wf(),
                reg == *registry,
                blocks == data.blocks@,
                i < BLOCKS_PER_CHUNK,
                block == blocks[i as int],
                p == LocalBlockPos::from_index_spec(i as int),
                p.wf(),
                faces@ == faces_upto(reg, blocks, 6 * i as int + d as int),
        {
            let dir = Direction::from_index(d);
            let visible = if block.type_id == AIR_BLOCK_ID {
                false
            } else {
                match p.get_neighbor(dir) {
                    Option::None => true,
                    Option::Some(q) => {
                        proof {
                            crate::pos::lemma_from_index_of_to_index(q);
                        }
                        data.blocks[q.to_index()].type_id == AIR_BLOCK_ID
                    },
                }
            };
            proof {
                lemma_fundamental_div_mod_converse(6 * i as int + d as int, 6, i as int, d as int);
                assert(visible == face_visible(blocks, i as int, d as int));
            }
            if visible {
                let bt = BlockType::from_id(registry, block.type_id);
                proof {
                    crate::block::lemma_lookup_in_id(registry.types@, block.type_id);
                }
                let key = if bt.id != block.type_id {
                    // the id has no entry of its own: from_id fell back
                    TextureAtlasKey::Null
                } else {
                    match bt.texture_layout {
                        BlockTextureLayout::Uniform(_) => TextureAtlasKey::Block(block.type_id),
                        _ => TextureAtlasKey::BlockFace(block.type_id, dir),
                    }
                };
                proof {
                    assert(key == face_key(reg, blocks, i as int, d as int));
                }
                faces.push((key, p, dir));
            }
            proof {
                assert(faces@ =~= faces_upto(reg, blocks, 6 * i as int + d as int + 1));
            }
        }
    }
    proof {
        lemma_faces_upto_len(reg, blocks, 6 * BLOCKS_PER_CHUNK as int);
    }

    // Texture keys in order of first appearance.
    let nfaces_total = faces.len();
    let mut keys: Vec<TextureAtlasKey> = Vec::new();
    for t in 0..nfaces_total
        invariant
            nfaces_total == faces@.len(),
            keys@ == keys_of(faces@.take(t as int)),
    {
        let k = faces[t].0;
        proof {
            assert(faces@.take(t as int + 1).drop_last() =~= faces@.take(t as int));
            assert(faces@.take(t as int + 1).last() == faces@[t as int]);
        }
        if !keys_contain(&keys, k) {
            keys.push(k);
        }
    }
    proof {
        assert(faces@.take(nfaces_total as int) =~= faces@);
    }

    // One batch per key, scanning the face stream once per key.
    let nkeys = keys.len();
    let offset_x: i64 = (data.pos.x as i64) * (CHUNK_WIDTH as i64);
    let offset_z: i64 = (data.pos.z as i64) * (CHUNK_WIDTH as i64);
    let mut out: Vec<Mesh> = Vec::new();
    for kidx in 0..nkeys
        invariant
            nkeys == keys@.len(),
            nfaces_total == faces@.len(),
            keys@ == keys_of(faces@),
            faces@ == chunk_faces(reg, blocks),
            faces@.len() <= 6 * BLOCKS_PER_CHUNK,
            blocks == data.blocks@,
            offset_x == data.pos.x * CHUNK_WIDTH,
            offset_z == data.pos.z * CHUNK_WIDTH,
            out@.len() == kidx,
            forall|j: int| 0 <= j < kidx ==> (#[trigger] out@[j]).tex_key == keys@[j],
            forall|j: int|
                0 <= j < kidx ==> (#[trigger] out@[j]).verts@ == verts_of_faces(
                    faces_with_key(faces@, keys@[j]),
                ),
            forall|j: int|
                0 <= j < kidx ==> (#[trigger] out@[j]).indices@ == quad_indices(
                    faces_with_key(faces@, keys@[j]).len() as int,
                ),
            forall|j: int|
                0 <= j < kidx ==> (#[trigger] out@[j]).offset_x == data.pos.x * CHUNK_WIDTH
                    && out@[j].offset_y == 0 && out@[j].offset_z == data.pos.z * CHUNK_WIDTH,
    {
        let k = keys[kidx];
        let mut verts: Vec<MeshVert> = Vec::new();
        let mut indices: Vec<u32> = Vec::new();
        let mut batch_faces: usize = 0;
        for t in 0..nfaces_total
            invariant
                nfaces_total == faces@.len(),
                faces@.len() <= 6 * BLOCKS_PER_CHUNK,
                batch_faces == faces_with_key(faces@.take(t as int), k).len(),
                batch_faces <= t,
                verts@ == verts_of_faces(faces_with_key(faces@.take(t as int), k)),
                indices@ == quad_indices(batch_faces as int),
        {
            let (fk, p, dir) = faces[t];
            proof {
                assert(faces@.take(t as int + 1).drop_last() =~= faces@.take(t as int));
                assert(faces@.take(t as int + 1).last() == faces@[t as int]);
            }
            if fk == k {
                push_face_indices(&mut indices, batch_faces);
                push_face_verts(&mut verts, p, dir);
                batch_faces = batch_faces + 1;
                proof {
                    let pre = faces_with_key(faces@.take(t as int), k);
                    let f = faces@[t as int];
                    assert(faces_with_key(faces@.take(t as int + 1), k) == pre.push(f));
                    assert(pre.push(f).drop_last() =~= pre);
                    assert(pre.push(f).last() == f);
                    assert(verts_of_faces(pre.push(f)) == verts_of_faces(pre) + face_verts(
                        f.1,
                        f.2,
                    ));
                    assert(f.1 == p && f.2 == dir);
                }
            }
        }
        proof {
            assert(faces@.take(nfaces_total as int) =~= faces@);
        }
        out.push(
            Mesh { verts, indices, offset_x, offset_y: 0, offset_z, tex_key: k },
        );
    }
    out
}

proof fn lemma_faces_upto_contains_mono(
    reg: BlockRegistry,
    blocks: Seq<BlockData>,
    t1: int,
    t2: int,
    e: FaceInfo,
)
    requires
        t1 <= t2,
        faces_upto(reg, blocks, t1).contains(e),
    ensures
        faces_upto(reg, blocks, t2).contains(e),
    decreases t2 - t1,
{
    if t2 > t1 {
        lemma_faces_upto_contains_mono(reg, blocks, t1, t2 - 1, e);
        let pre = faces_upto(reg, blocks, t2 - 1);
        let w = choose|w: int| 0 <= w < pre.len() && #[trigger] pre[w] == e;
        if face_visible(blocks, (t2 - 1) / 6, (t2 - 1) % 6) {
            assert(faces_upto(reg, blocks, t2)[w] == e);
        }
    }
}

proof fn lemma_faces_upto_source(reg: BlockRegistry, blocks: Seq<BlockData>, t: int, w: int)
    requires
        0 <= w < faces_upto(reg, blocks, t).len(),
    ensures
        exists|i: int, d: int|
            {
                &&& 0 <= i
                &&& 0 <= d < 6
                &&& 6 * i + d < t
                &&& face_visible(blocks, i, d)
                &&& faces_upto(reg, blocks, t)[w] == (
                    #[trigger] face_key(reg, blocks, i, d),
                    LocalBlockPos::from_index_spec(i),
                    Direction::from_index_spec(d),
                )
            },
    decreases t,
{
    let pre = faces_upto(reg, blocks, t - 1);
    let i0 = (t - 1) / 6;
    let d0 = (t - 1) % 6;
    if w < pre.len() {
        lemma_faces_upto_source(reg, blocks, t - 1, w);
        let (i, d) = choose|i: int, d: int|
            {
                &&& 0 <= i
                &&& 0 <= d < 6
                &&& 6 * i + d < t - 1
                &&& face_visible(blocks, i, d)
                &&& pre[w] == (
                    #[trigger] face_key(reg, blocks, i, d),
                    LocalBlockPos::from_index_spec(i),
                    Direction::from_index_spec(d),
                )
            };
        assert(faces_upto(reg, blocks, t)[w] == pre[w]);
        assert(faces_upto(reg, blocks, t)[w] == (
            face_key(reg, blocks, i, d),
            LocalBlockPos::from_index_spec(i),
            Direction::from_index_spec(d),
        ));
    } else {
        assert(face_visible(blocks, i0, d0));
        assert(faces_upto(reg, blocks, t) == pre.push(
            (
                face_key(reg, blocks, i0, d0),
                LocalBlockPos::from_index_spec(i0),
                Direction::from_index_spec(d0),
            ),
        ));
        assert(i0 >= 0 && 6 * i0 + d0 == t - 1) by {
            vstd::arithmetic::div_mod::lemma_fundamental_div_mod(t - 1, 6);
        }
        assert(faces_upto(reg, blocks, t)[w] == (
            face_key(reg, blocks, i0, d0),
            LocalBlockPos::from_index_spec(i0),
            Direction::from_index_spec(d0),
        ));
    }
}

/// The emitted face stream holds the face of block `i` in direction `d`
/// exactly when that face is visible: never a face that a solid neighbor
/// occludes, never a face of an air block, and every exposed face.
pub proof fn lemma_chunk_faces_hold_exactly_visible(
    reg: BlockRegistry,
    blocks: Seq<BlockData>,
    i: int,
    d: int,
)
    requires
        blocks.len() == BLOCKS_PER_CHUNK,
        0 <= i < BLOCKS_PER_CHUNK,
        0 <= d < 6,
    ensures
        chunk_faces(reg, blocks).contains(
            (
                face_key(reg, blocks, i, d),
                LocalBlockPos::from_index_spec(i),
                Direction::from_index_spec(d),
            ),
        ) <==> face_visible(blocks, i, d),
{
    let e = (
        face_key(reg, blocks, i, d),
        LocalBlockPos::from_index_spec(i),
        Direction::from_index_spec(d),
    );
    let t0 = 6 * i + d;
    if face_visible(blocks, i, d) {
        lemma_fundamental_div_mod_converse(t0, 6, i, d);
        let pre = faces_upto(reg, blocks, t0);
        assert(faces_upto(reg, blocks, t0 + 1) == pre.push(e));
        assert(faces_upto(reg, blocks, t0 + 1)[pre.len() as int] == e);
        lemma_faces_upto_contains_mono(reg, blocks, t0 + 1, 6 * BLOCKS_PER_CHUNK as int, e);
    }
    if chunk_faces(reg, blocks).contains(e) {
        let w = choose|w: int|
            0 <= w < chunk_faces(reg, blocks).len() && #[trigger] chunk_faces(reg, blocks)[w]
                == e;
        lemma_faces_upto_source(reg, blocks, 6 * BLOCKS_PER_CHUNK as int, w);
        let (i2, d2) = choose|i2: int, d2: int|
            {
                &&& 0 <= i2
                &&& 0 <= d2 < 6
                &&& 6 * i2 + d2 < 6 * BLOCKS_PER_CHUNK
                &&& face_visible(blocks, i2, d2)
                &&& chunk_faces(reg, blocks)[w] == (
                    #[trigger] face_key(reg, blocks, i2, d2),
                    LocalBlockPos::from_index_spec(i2),
                    Direction::from_index_spec(d2),
                )
            };
        // the position and direction of a face pin the block index and the
        // direction number
        assert(i2 < BLOCKS_PER_CHUNK);
        crate::pos::lemma_to_index_of_from_index(i);
        crate::pos::lemma_to_index_of_from_index(i2);
        assert(i2 == i);
        assert(Direction::from_index_spec(d2).index_spec() == d2);
        assert(Direction::from_index_spec(d).index_spec() == d);
        assert(d2 == d);
    }
}

/// A chunk that is entirely air emits no faces at all (and so yields zero
/// mesh batches).
pub proof fn lemma_air_chunk_no_batches(reg: BlockRegistry, blocks: Seq<BlockData>)
    requires
        blocks.len() == BLOCKS_PER_CHUNK,
        forall|i: int| 0 <= i < blocks.len() ==> (#[trigger] blocks[i]).type_id == AIR_BLOCK_ID,
    ensures
        chunk_faces(reg, blocks).len() == 0,
        keys_of(chunk_faces(reg, blocks)).len() == 0,
{
    lemma_air_faces_upto(reg, blocks, 6 * BLOCKS_PER_CHUNK as int);
}

proof fn lemma_air_faces_upto(reg: BlockRegistry, blocks: Seq<BlockData>, t: int)
    requires
        blocks.len() == BLOCKS_PER_CHUNK,
        t <= 6 * BLOCKS_PER_CHUNK,
        forall|i: int| 0 <= i < blocks.len() ==> (#[trigger] blocks[i]).type_id == AIR_BLOCK_ID,
    ensures
        faces_upto(reg, blocks, t).len() == 0,
    decreases t,
{
    if t > 0 {
        lemma_air_faces_upto(reg, blocks, t - 1);
        assert(0 <= (t - 1) / 6 < BLOCKS_PER_CHUNK) by (nonlinear_arith)
            requires
                0 < t <= 6 * BLOCKS_PER_CHUNK,
        ;
        assert(!face_visible(blocks, (t - 1) / 6, (t - 1) % 6));
    }
}

/// Face culling on a fully solid chunk: every block is non-air, so a face is
/// emitted exactly when it lies on the outer boundary of the chunk (its
/// neighbor in that direction falls outside).
pub proof fn lemma_solid_chunk_faces(blocks: Seq<BlockData>, i: int, d: int)
    requires
        blocks.len() == BLOCKS_PER_CHUNK,
        forall|k: int| 0 <= k < blocks.len() ==> (#[trigger] blocks[k]).type_id != AIR_BLOCK_ID,
        0 <= i < BLOCKS_PER_CHUNK,
        0 <= d < 6,
    ensures
        face_visible(blocks, i, d) <==> LocalBlockPos::from_index_spec(i).neighbor_spec(
            Direction::from_index_spec(d),
        ) is None,
{
    let p = LocalBlockPos::from_index_spec(i);
    crate::pos::lemma_to_index_of_from_index(i);
    match p.neighbor_spec(Direction::from_index_spec(d)) {
        Option::None => {},
        Option::Some(q) => {
            assert(q.wf());
            assert(0 <= q.to_index_spec() < BLOCKS_PER_CHUNK);
            assert(blocks[q.to_index_spec()].type_id != AIR_BLOCK_ID);
        },
    }
}

} // verus!
