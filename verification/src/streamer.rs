//! Client-side chunk streaming policy.
//!
//! Given a reference chunk position and a render-distance radius, the
//! desired set holds every chunk position within the circular radius. On a
//! policy tick the client loads each desired chunk it does not hold
//! (materializing the server's delta over freshly generated data) and drops
//! each loaded chunk that is no longer desired. The network exchange itself
//! is the caller's: these functions decide, they do not transmit.

use vstd::prelude::*;

use crate::assoc::{
    assoc_filter, assoc_lookup, distinct_keys, lemma_assoc_filter_lookup,
    lemma_assoc_filter_member, lemma_assoc_filter_push, lemma_assoc_found, lemma_assoc_member,
    lemma_assoc_missing, lemma_assoc_push,
};
use crate::block::BlockRegistry;
use crate::chunk::{apply_delta, apply_entries, ChunkData, ChunkDeltaData, WorldGenesisData};
use crate::mesher::{generate_chunk_meshes, is_batches_for, Mesh};
use crate::pos::ChunkPos;
use crate::protocol::ServerResponse;
use crate::worldgen::{chunk_gen_blocks, generate_chunk};

verus! {

/// Greatest render-distance radius the policy accepts, in chunks.
pub const MAX_RENDER_DISTANCE: u32 = 1000000;

/// A chunk held by the client: its materialized block data, its current
/// mesh batches, and whether the batches are stale.
pub struct LoadedChunk {
    pub data: ChunkData,
    pub meshes: Vec<Mesh>,
    pub needs_remesh: bool,
}

impl LoadedChunk {
    pub open spec fn wf(self) -> bool {
        self.data.wf()
    }

    /// Materializes a chunk from a load response: freshly generated data
    /// with the delta's overrides applied, marked for meshing.
    pub fn load_from_delta(gen: &WorldGenesisData, delta: &ChunkDeltaData) -> (r: LoadedChunk)
        requires
            delta.wf(),
        ensures
            r.wf(),
            r.data.pos == delta.pos,
            r.data.blocks@ == apply_entries(chunk_gen_blocks(*gen, delta.pos), delta.blocks@),
            r.meshes@.len() == 0,
            r.needs_remesh,
    {
        let mut data = generate_chunk(gen, delta.pos);
        apply_delta(&mut data, delta);
        LoadedChunk { data, meshes: Vec::new(), needs_remesh: true }
    }
}

/// The chunks the client currently holds, keyed by position.
pub struct WorldData {
    pub chunks: Vec<(ChunkPos, LoadedChunk)>,
}

impl WorldData {
    /// Each position is held at most once, under a chunk whose data carries
    /// that position.
    pub open spec fn wf(self) -> bool {
        &&& distinct_keys(self.chunks@)
        &&& forall|i: int|
            0 <= i < self.chunks@.len() ==> (#[trigger] self.chunks@[i]).1.wf()
                && self.chunks@[i].1.data.pos == self.chunks@[i].0
    }

    /// The chunk held at `pos`, if any.
    pub open spec fn chunk_at(self, pos: ChunkPos) -> Option<LoadedChunk> {
        assoc_lookup(self.chunks@, pos)
    }

    /// Whether a chunk is held at `pos`.
    pub open spec fn loaded(self, pos: ChunkPos) -> bool {
        self.chunk_at(pos) is Some
    }

    /// A client world holding no chunks.
    pub fn new() -> (r: WorldData)
        ensures
            r.wf(),
            r.chunks@.len() == 0,
            forall|q: ChunkPos| !r.loaded(q),
    {
        let r = WorldData { chunks: Vec::new() };
        proof {
            assert forall|q: ChunkPos| !r.loaded(q) by {
                lemma_assoc_missing(r.chunks@, q);
            }
        }
        r
    }

    /// Index of the chunk held at `pos`, if any.
    fn find_chunk(&self, pos: ChunkPos) -> (r: Option<usize>)
        ensures
            match r {
                Some(i) => i < self.chunks@.len() && self.chunks@[i as int].0 == pos && forall|
                    j: int,
                |
                    0 <= j < i ==> (#[trigger] self.chunks@[j]).0 != pos,
                None => forall|j: int|
                    0 <= j < self.chunks@.len() ==> (#[trigger] self.chunks@[j]).0 != pos,
            },
    {
        let n = self.chunks.len();
        for i in 0..n
            invariant
                n == self.chunks@.len(),
                forall|j: int| 0 <= j < i ==> (#[trigger] self.chunks@[j]).0 != pos,
        {
            if self.chunks[i].0 == pos {
                return Some(i);
            }
        }
        None
    }

    /// Whether a chunk is held at `pos`.
    pub fn contains_chunk(&self, pos: ChunkPos) -> (r: bool)
        ensures
            r == self.loaded(pos),
    {
        match self.find_chunk(pos) {
            Some(i) => {
                proof {
                    lemma_assoc_found(self.chunks@, pos, i as int);
                }
                true
            },
            None => {
                proof {
                    lemma_assoc_missing(self.chunks@, pos);
                }
                false
            },
        }
    }

    /// Adds a freshly loaded chunk under its position. No other entry
    /// changes.
    pub fn insert_chunk(&mut self, pos: ChunkPos, chunk: LoadedChunk)
        requires
            old(self).wf(),
            !old(self).loaded(pos),
            chunk.wf(),
            chunk.data.pos == pos,
        ensures
            final(self).wf(),
            forall|q: ChunkPos|
                final(self).chunk_at(q) == if q == pos {
                    Some(chunk)
                } else {
                    old(self).chunk_at(q)
                },
    {
        proof {
            assert forall|j: int|
                0 <= j < self.chunks@.len() implies (#[trigger] self.chunks@[j]).0 != pos by {
                if self.chunks@[j].0 == pos {
                    lemma_assoc_member(self.chunks@, j);
                }
            }
            let entries0 = self.chunks@;
            assert forall|q: ChunkPos|
                assoc_lookup(entries0.push((pos, chunk)), q) == if q == pos {
                    Some(chunk)
                } else {
                    assoc_lookup(entries0, q)
                } by {
                lemma_assoc_push(entries0, pos, chunk, q);
            }
            lemma_assoc_push(entries0, pos, chunk, pos);
        }
        self.chunks.push((pos, chunk));
    }
}

/// Whether the chunk at `q` lies within the render distance of the
/// reference chunk: the straight-line distance of their grid offsets is
/// below the radius.
pub open spec fn in_radius(center: ChunkPos, radius: u32, q: ChunkPos) -> bool {
    (q.x - center.x) * (q.x - center.x) + (q.z - center.z) * (q.z - center.z) < radius * radius
}

/// Decides `in_radius` for one position.
pub fn chunk_in_radius(center: ChunkPos, radius: u32, q: ChunkPos) -> (r: bool)
    requires
        radius <= MAX_RENDER_DISTANCE,
    ensures
        r == in_radius(center, radius, q),
{
    let dx: i64 = (q.x as i64) - (center.x as i64);
    let dz: i64 = (q.z as i64) - (center.z as i64);
    let rr: i64 = radius as i64;
    if dx < -rr || dx > rr || dz < -rr || dz > rr {
        proof {
            assert(dx * dx + dz * dz >= rr * rr) by (nonlinear_arith)
                requires
                    (dx < -rr || dx > rr || dz < -rr || dz > rr) && rr >= 0,
            ;
        }
        false
    } else {
        proof {
            assert(dx * dx <= rr * rr && dz * dz <= rr * rr && dx * dx >= 0 && dz * dz >= 0)
                by (nonlinear_arith)
                requires
                    -rr <= dx <= rr && -rr <= dz <= rr,
            ;
            assert(rr * rr <= 1000000000000i64) by (nonlinear_arith)
                requires
                    0 <= rr <= 1000000,
            ;
        }
        dx * dx + dz * dz < rr * rr
    }
}

/// Every chunk position within the render distance of the reference chunk,
/// each exactly once.
pub fn desired_chunk_positions(center: ChunkPos, radius: u32) -> (out: Vec<ChunkPos>)
    requires
        radius <= MAX_RENDER_DISTANCE,
        center.x - radius >= i32::MIN,
        center.x + radius <= i32::MAX,
        center.z - radius >= i32::MIN,
        center.z + radius <= i32::MAX,
    ensures
        forall|q: ChunkPos| out@.contains(q) <==> in_radius(center, radius, q),
        forall|i: int, j: int| 0 <= i < j < out@.len() ==> out@[i] != out@[j],
{
    let rr: i64 = radius as i64;
    let mut out: Vec<ChunkPos> = Vec::new();
    proof {
        assert forall|q: ChunkPos| in_radius(center, radius, q) implies -rr <= q.x - center.x
            <= rr && -rr <= q.z - center.z <= rr by {
            lemma_radius_box(center, radius, q);
        }
    }
    for dx in -rr..rr + 1
        invariant
            rr == radius,
            radius <= MAX_RENDER_DISTANCE,
            -rr <= dx <= rr + 1,
            forall|q: ChunkPos|
                out@.contains(q) <==> (in_radius(center, radius, q) && q.x - center.x < dx),
            forall|i: int, j: int| 0 <= i < j < out@.len() ==> out@[i] != out@[j],
            forall|q: ChunkPos|
                in_radius(center, radius, q) ==> -rr <= q.x - center.x <= rr && -rr <= q.z
                    - center.z <= rr,
            center.x - radius >= i32::MIN,
            center.x + radius <= i32::MAX,
            center.z - radius >= i32::MIN,
            center.z + radius <= i32::MAX,
    {
        for dz in -rr..rr + 1
            invariant
                rr == radius,
                radius <= MAX_RENDER_DISTANCE,
                -rr <= dx <= rr,
                -rr <= dz <= rr + 1,
                forall|q: ChunkPos|
                    out@.contains(q) <==> (in_radius(center, radius, q) && (q.x - center.x < dx
                        || (q.x - center.x == dx && q.z - center.z < dz))),
                forall|i: int, j: int| 0 <= i < j < out@.len() ==> out@[i] != out@[j],
                forall|q: ChunkPos|
                    in_radius(center, radius, q) ==> -rr <= q.x - center.x <= rr && -rr <= q.z
                        - center.z <= rr,
                center.x - radius >= i32::MIN,
                center.x + radius <= i32::MAX,
                center.z - radius >= i32::MIN,
                center.z + radius <= i32::MAX,
        {
            proof {
                assert(dx * dx <= rr * rr && dz * dz <= rr * rr && dx * dx >= 0 && dz * dz >= 0)
                    by (nonlinear_arith)
                    requires
                        -rr <= dx <= rr && -rr <= dz <= rr,
                ;
                assert(rr * rr <= 1000000000000i64) by (nonlinear_arith)
                    requires
                        0 <= rr <= 1000000,
                ;
            }
            if dx * dx + dz * dz < rr * rr {
                let q = ChunkPos { x: center.x + dx as i32, z: center.z + dz as i32 };
                let ghost out0 = out@;
                proof {
                    assert(in_radius(center, radius, q));
                    assert(!out0.contains(q));
                }
                out.push(q);
                proof {
                    assert(out@ == out0.push(q));
                    assert forall|p: ChunkPos|
                        out@.contains(p) <==> (in_radius(center, radius, p) && (p.x - center.x
                            < dx || (p.x - center.x == dx && p.z - center.z < dz + 1))) by {
                        if out@.contains(p) {
                            let w = choose|w: int| 0 <= w < out@.len() && #[trigger] out@[w] == p;
                            if w < out0.len() {
                                assert(out0[w] == p);
                                assert(out0.contains(p));
                            } else {
                                assert(p == q);
                            }
                        }
                        if in_radius(center, radius, p) && (p.x - center.x < dx || (p.x - center.x
                            == dx && p.z - center.z < dz + 1)) {
                            if p.x - center.x < dx || (p.x - center.x == dx && p.z - center.z
                                < dz) {
                                assert(out0.contains(p));
                                let w = choose|w: int|
                                    0 <= w < out0.len() && #[trigger] out0[w] == p;
                                assert(out@[w] == p);
                            } else {
                                assert(p == q);
                                assert(out@[out0.len() as int] == q);
                            }
                        }
                    }
                }
            } else {
                proof {
                    assert forall|p: ChunkPos|
                        out@.contains(p) <==> (in_radius(center, radius, p) && (p.x - center.x
                            < dx || (p.x - center.x == dx && p.z - center.z < dz + 1))) by {
                        if p.x - center.x == dx && p.z - center.z == dz {
                            assert(!in_radius(center, radius, p));
                        }
                    }
                }
            }
        }
    }
    out
}

/// Any position within the radius lies in the surrounding box.
proof fn lemma_radius_box(center: ChunkPos, radius: u32, q: ChunkPos)
    requires
        in_radius(center, radius, q),
    ensures
        -(radius as int) <= q.x - center.x <= radius,
        -(radius as int) <= q.z - center.z <= radius,
{
    let dx = q.x - center.x;
    let dz = q.z - center.z;
    assert(-(radius as int) <= dx <= radius && -(radius as int) <= dz <= radius)
        by (nonlinear_arith)
        requires
            dx * dx + dz * dz < radius * radius && radius >= 0,
    ;
}

/// The desired positions the client does not hold yet: these are the load
/// requests of one policy tick.
pub fn chunks_to_load(world: &WorldData, center: ChunkPos, radius: u32) -> (out: Vec<ChunkPos>)
    requires
        world.wf(),
        radius <= MAX_RENDER_DISTANCE,
        center.x - radius >= i32::MIN,
        center.x + radius <= i32::MAX,
        center.z - radius >= i32::MIN,
        center.z + radius <= i32::MAX,
    ensures
        forall|q: ChunkPos|
            out@.contains(q) <==> (in_radius(center, radius, q) && !world.loaded(q)),
        forall|i: int, j: int| 0 <= i < j < out@.len() ==> out@[i] != out@[j],
{
    let desired = desired_chunk_positions(center, radius);
    let mut out: Vec<ChunkPos> = Vec::new();
    let n = desired.len();
    let mut i: usize = 0;
    while i < n
        invariant
            i <= n,
            n == desired@.len(),
            world.wf(),
            forall|q: ChunkPos| desired@.contains(q) <==> in_radius(center, radius, q),
            forall|i2: int, j2: int| 0 <= i2 < j2 < desired@.len() ==> desired@[i2] != desired@[j2],
            forall|w: int| 0 <= w < out@.len() ==> !world.loaded(#[trigger] out@[w]),
            forall|w: int|
                0 <= w < out@.len() ==> exists|u: int|
                    0 <= u < i && #[trigger] desired@[u] == #[trigger] out@[w],
            forall|w: int|
                0 <= w < i ==> world.loaded(#[trigger] desired@[w]) || out@.contains(desired@[w]),
            forall|i2: int, j2: int| 0 <= i2 < j2 < out@.len() ==> out@[i2] != out@[j2],
        decreases n - i,
    {
        let p = desired[i];
        let is_loaded = world.contains_chunk(p);
        let ghost out0 = out@;
        if !is_loaded {
            proof {
                if out0.contains(p) {
                    let v = choose|v: int| 0 <= v < out0.len() && #[trigger] out0[v] == p;
                    let u0 = choose|u: int| 0 <= u < i && #[trigger] desired@[u] == out0[v];
                    assert(desired@[u0] == p && desired@[i as int] == p);
                    assert(false);
                }
            }
            out.push(p);
            proof {
                assert(out@ == out0.push(p));
                assert forall|w: int|
                    0 <= w < out@.len() implies !world.loaded(#[trigger] out@[w]) && exists|u: int|
                    0 <= u < i + 1 && #[trigger] desired@[u] == out@[w] by {
                    if w < out0.len() {
                        assert(out@[w] == out0[w]);
                        let u0 = choose|u: int| 0 <= u < i && #[trigger] desired@[u] == out0[w];
                        assert(0 <= u0 < i + 1 && desired@[u0] == out@[w]);
                    } else {
                        assert(out@[w] == p);
                        assert(desired@[i as int] == out@[w]);
                    }
                }
                assert forall|w: int| 0 <= w < i + 1 implies world.loaded(#[trigger] desired@[w])
                    || out@.contains(desired@[w]) by {
                    if w < i && !world.loaded(desired@[w]) {
                        let v = choose|v: int| 0 <= v < out0.len() && #[trigger] out0[v]
                            == desired@[w];
                        assert(out@[v] == desired@[w]);
                    }
                    if w == i {
                        assert(out@[out0.len() as int] == p);
                    }
                }
                assert forall|i2: int, j2: int| 0 <= i2 < j2 < out@.len() implies out@[i2]
                    != out@[j2] by {
                    if j2 < out0.len() {
                        assert(out@[i2] == out0[i2] && out@[j2] == out0[j2]);
                    } else {
                        assert(out@[i2] == out0[i2] && out@[j2] == p);
                        if out0[i2] == p {
                            assert(out0.contains(p));
                        }
                    }
                }
            }
        } else {
            proof {
                assert forall|w: int|
                    0 <= w < out@.len() implies !world.loaded(#[trigger] out@[w]) && exists|u: int|
                    0 <= u < i + 1 && #[trigger] desired@[u] == out@[w] by {
                    let u0 = choose|u: int| 0 <= u < i && #[trigger] desired@[u] == out@[w];
                    assert(0 <= u0 < i + 1 && desired@[u0] == out@[w]);
                }
            }
        }
        i = i + 1;
    }
    proof {
        assert forall|q: ChunkPos|
            out@.contains(q) <==> (in_radius(center, radius, q) && !world.loaded(q)) by {
            if out@.contains(q) {
                let v = choose|v: int| 0 <= v < out@.len() && #[trigger] out@[v] == q;
                assert(!world.loaded(q));
                let u0 = choose|u: int| 0 <= u < n && #[trigger] desired@[u] == out@[v];
                assert(desired@.contains(q));
            }
            if in_radius(center, radius, q) && !world.loaded(q) {
                assert(desired@.contains(q));
                let w = choose|w: int| 0 <= w < desired@.len() && #[trigger] desired@[w] == q;
                assert(out@.contains(desired@[w]));
            }
        }
    }
    out
}

/// Failure of one streaming step, reported upward to the policy's owner.
#[derive(Clone, Copy, Debug, PartialEq, Eq, Structural, Hash)]
pub enum StreamError {
    /// The server's answer was not the load response for the requested
    /// chunk.
    UnexpectedResponse,
}

/// Takes the server's answer to a load request for `requested`: on the
/// matching load response the chunk is materialized (generated data with
/// the delta applied) and held, marked for meshing; any other answer
/// changes nothing and reports failure, so the caller aborts the tick's
/// loading pass.
pub fn apply_load_response(
    world: &mut WorldData,
    gen: &WorldGenesisData,
    requested: ChunkPos,
    response: &ServerResponse,
) -> (r: Result<(), StreamError>)
    requires
        old(world).wf(),
        !old(world).loaded(requested),
        response.wf(),
    ensures
        final(world).wf(),
        match r {
            Ok(_) => {
                &&& *response matches ServerResponse::LoadChunkOK(d) && d@.pos == requested && {
                    &&& final(world).chunk_at(requested) matches Some(c) && c.data.pos
                        == requested && c.data.blocks@ == apply_entries(
                        chunk_gen_blocks(*gen, requested),
                        d@.blocks,
                    ) && c.needs_remesh && c.meshes@.len() == 0
                }
                &&& forall|q: ChunkPos|
                    q != requested ==> final(world).chunk_at(q) == old(world).chunk_at(q)
            },
            Err(e) => {
                &&& *final(world) == *old(world)
                &&& e == StreamError::UnexpectedResponse
                &&& !(*response matches ServerResponse::LoadChunkOK(d) && d@.pos == requested)
            },
        },
{
    match response {
        ServerResponse::LoadChunkOK(delta) => {
            if delta.pos == requested {
                let chunk = LoadedChunk::load_from_delta(gen, delta);
                world.insert_chunk(requested, chunk);
                Ok(())
            } else {
                Err(StreamError::UnexpectedResponse)
            }
        },
        _ => Err(StreamError::UnexpectedResponse),
    }
}

/// Drops every held chunk that is no longer within the render distance;
/// chunks within it are untouched.
pub fn unload_distant_chunks(world: &mut WorldData, center: ChunkPos, radius: u32)
    requires
        old(world).wf(),
        radius <= MAX_RENDER_DISTANCE,
    ensures
        final(world).wf(),
        forall|q: ChunkPos|
            final(world).chunk_at(q) == if in_radius(center, radius, q) {
                old(world).chunk_at(q)
            } else {
                None::<LoadedChunk>
            },
{
    let ghost pred = |k: ChunkPos| in_radius(center, radius, k);
    let mut pending: Vec<(ChunkPos, LoadedChunk)> = Vec::new();
    core::mem::swap(&mut world.chunks, &mut pending);
    let ghost entries0 = pending@;
    let n = pending.len();
    for c in 0..n
        invariant
            n == entries0.len(),
            pending@ =~= entries0.skip(c as int),
            world.chunks@ == assoc_filter(entries0.take(c as int), pred),
            radius <= MAX_RENDER_DISTANCE,
            pred == (|k: ChunkPos| in_radius(center, radius, k)),
    {
        let e = pending.remove(0);
        proof {
            assert(e == entries0[c as int]);
            assert(pending@ =~= entries0.skip(c + 1));
            lemma_assoc_filter_push(entries0.take(c as int), e, pred);
            assert(entries0.take(c as int).push(e) =~= entries0.take(c + 1));
        }
        if chunk_in_radius(center, radius, e.0) {
            world.chunks.push(e);
        }
    }
    proof {
        assert(entries0.take(n as int) =~= entries0);
        assert forall|q: ChunkPos|
            world.chunk_at(q) == if in_radius(center, radius, q) {
                assoc_lookup(entries0, q)
            } else {
                None::<LoadedChunk>
            } by {
            lemma_assoc_filter_lookup(entries0, pred, q);
        }
        lemma_assoc_filter_lookup(entries0, pred, center);
        assert forall|i: int|
            0 <= i < world.chunks@.len() implies (#[trigger] world.chunks@[i]).1.wf()
            && world.chunks@[i].1.data.pos == world.chunks@[i].0 by {
            lemma_assoc_filter_member(entries0, pred, i);
        }
    }
}

/// Rebuilds the mesh batches of every chunk marked dirty and clears its
/// flag; clean chunks are untouched.
pub fn prep_meshes(world: &mut WorldData, registry: &BlockRegistry)
    requires
        old(world).wf(),
        registry.wf(),
    ensures
        final(world).wf(),
        final(world).chunks@.len() == old(world).chunks@.len(),
        forall|i: int|
            0 <= i < old(world).chunks@.len() ==> {
                &&& (#[trigger] final(world).chunks@[i]).0 == old(world).chunks@[i].0
                &&& final(world).chunks@[i].1.data == old(world).chunks@[i].1.data
                &&& !final(world).chunks@[i].1.needs_remesh
                &&& if old(world).chunks@[i].1.needs_remesh {
                    is_batches_for(
                        *registry,
                        old(world).chunks@[i].1.data,
                        final(world).chunks@[i].1.meshes@,
                    )
                } else {
                    final(world).chunks@[i].1.meshes@ == old(world).chunks@[i].1.meshes@
                }
            },
{
    let n = world.chunks.len();
    for i in 0..n
        invariant
            n == world.chunks@.len(),
            n == old(world).chunks@.len(),
            registry.wf(),
            old(world).wf(),
            forall|j: int|
                i <= j < n ==> (#[trigger] world.chunks@[j]) == old(world).chunks@[j],
            forall|j: int|
                0 <= j < i ==> {
                    &&& (#[trigger] world.chunks@[j]).0 == old(world).chunks@[j].0
                    &&& world.chunks@[j].1.data == old(world).chunks@[j].1.data
                    &&& !world.chunks@[j].1.needs_remesh
                    &&& if old(world).chunks@[j].1.needs_remesh {
                        is_batches_for(
                            *registry,
                            old(world).chunks@[j].1.data,
                            world.chunks@[j].1.meshes@,
                        )
                    } else {
                        world.chunks@[j].1.meshes@ == old(world).chunks@[j].1.meshes@
                    }
                },
    {
        if world.chunks[i].1.needs_remesh {
            let batches = generate_chunk_meshes(registry, &world.chunks[i].1.data);
            let entry = &mut world.chunks[i];
            entry.1.meshes = batches;
            entry.1.needs_remesh = false;
        }
    }
    proof {
        assert forall|i: int, j: int|
            0 <= i < j < world.chunks@.len() implies (#[trigger] world.chunks@[i]).0 != (
        #[trigger] world.chunks@[j]).0 by {
            assert(old(world).chunks@[i].0 != old(world).chunks@[j].0);
        }
    }
}

} // verus!
