//! Chunk block storage, chunk deltas, and delta application.
//!
//! A delta lists the blocks of a chunk that differ from what the
//! deterministic generator produces; applying a delta to freshly generated
//! data reconstructs the authoritative chunk exactly.

use vstd::prelude::*;

use crate::block::AIR_BLOCK_ID;
use crate::pos::{ChunkPos, LocalBlockPos};
use crate::{BlockTypeId, BLOCKS_PER_CHUNK};

verus! {

/// A single block: just its type id.
#[derive(Clone, Copy, Debug, PartialEq, Eq, Structural, Hash)]
pub struct BlockData {
    pub type_id: BlockTypeId,
}

impl Default for BlockData {
    /// The default block is air.
    fn default() -> (r: Self)
        ensures
            r.type_id == AIR_BLOCK_ID,
    {
        BlockData { type_id: AIR_BLOCK_ID }
    }
}

/// Parameters of deterministic world generation.
#[derive(Clone, Copy, Debug, PartialEq, Eq, Structural, Hash)]
pub struct WorldGenesisData {
    pub seed: u32,
}

impl Default for WorldGenesisData {
    fn default() -> (r: Self)
        ensures
            r.seed == 0,
    {
        WorldGenesisData { seed: 0 }
    }
}

/// All the blocks of one chunk, as a flat array indexed by
/// `LocalBlockPos::to_index`.
#[derive(Clone, Debug)]
pub struct ChunkData {
    pub pos: ChunkPos,
    pub blocks: Vec<BlockData>,
}

impl ChunkData {
    /// The block array has exactly one entry per block of the chunk.
    pub open spec fn wf(self) -> bool {
        self.blocks@.len() == BLOCKS_PER_CHUNK
    }
}

/// Difference of a chunk from its generated state: an ordered list of
/// overrides. An empty list means "exactly as generated".
#[derive(Clone, Debug, PartialEq)]
pub struct ChunkDeltaData {
    pub pos: ChunkPos,
    pub blocks: Vec<(LocalBlockPos, BlockData)>,
}

/// Mathematical model of a chunk delta: its position and the sequence of
/// overrides.
pub struct DeltaView {
    pub pos: ChunkPos,
    pub blocks: Seq<(LocalBlockPos, BlockData)>,
}

impl View for ChunkDeltaData {
    type V = DeltaView;

    open spec fn view(&self) -> DeltaView {
        DeltaView { pos: self.pos, blocks: self.blocks@ }
    }
}

impl ChunkDeltaData {
    /// Every listed position lies inside the chunk.
    pub open spec fn wf(self) -> bool {
        forall|k: int| 0 <= k < self.blocks@.len() ==> (#[trigger] self.blocks@[k]).0.wf()
    }

    /// The delta of a chunk that is exactly as generated.
    pub fn empty(pos: ChunkPos) -> (r: ChunkDeltaData)
        ensures
            r.pos == pos,
            r.blocks@.len() == 0,
            r.wf(),
    {
        ChunkDeltaData { pos, blocks: Vec::new() }
    }
}

/// Result of applying override entries to a block array, in list order.
pub open spec fn apply_entries(
    blocks: Seq<BlockData>,
    entries: Seq<(LocalBlockPos, BlockData)>,
) -> Seq<BlockData>
    decreases entries.len(),
{
    if entries.len() == 0 {
        blocks
    } else {
        apply_entries(
            blocks.update(entries[0].0.to_index_spec(), entries[0].1),
            entries.drop_first(),
        )
    }
}

/// The value written last to flat index `j` by `entries`, if any.
pub open spec fn last_write(entries: Seq<(LocalBlockPos, BlockData)>, j: int) -> Option<
    BlockData,
>
    decreases entries.len(),
{
    if entries.len() == 0 {
        None
    } else if entries.last().0.to_index_spec() == j {
        Some(entries.last().1)
    } else {
        last_write(entries.drop_last(), j)
    }
}

proof fn lemma_apply_entries_push(
    blocks: Seq<BlockData>,
    entries: Seq<(LocalBlockPos, BlockData)>,
    e: (LocalBlockPos, BlockData),
)
    ensures
        apply_entries(blocks, entries.push(e)) == apply_entries(blocks, entries).update(
            e.0.to_index_spec(),
            e.1,
        ),
    decreases entries.len(),
{
    if entries.len() == 0 {
        assert(entries.push(e)[0] == e);
        assert(entries.push(e).drop_first() =~= Seq::<(LocalBlockPos, BlockData)>::empty());
        assert(apply_entries(blocks.update(e.0.to_index_spec(), e.1), entries.push(e).drop_first())
            == blocks.update(e.0.to_index_spec(), e.1));
        assert(apply_entries(blocks, entries.push(e)) == apply_entries(
            blocks.update(e.0.to_index_spec(), e.1),
            entries.push(e).drop_first(),
        ));
        assert(apply_entries(blocks, entries) == blocks);
    } else {
        assert(entries.push(e)[0] == entries[0]);
        assert(entries.push(e).drop_first() =~= entries.drop_first().push(e));
        let blocks1 = blocks.update(entries[0].0.to_index_spec(), entries[0].1);
        lemma_apply_entries_push(blocks1, entries.drop_first(), e);
        assert(apply_entries(blocks, entries.push(e)) == apply_entries(
            blocks1,
            entries.drop_first().push(e),
        ));
        assert(apply_entries(blocks, entries) == apply_entries(blocks1, entries.drop_first()));
    }
}

/// Applying entries keeps the array length and rewrites exactly the listed
/// indices, the last write to an index winning.
pub proof fn lemma_apply_entries_pointwise(
    blocks: Seq<BlockData>,
    entries: Seq<(LocalBlockPos, BlockData)>,
    j: int,
)
    requires
        blocks.len() == BLOCKS_PER_CHUNK,
        forall|k: int| 0 <= k < entries.len() ==> (#[trigger] entries[k]).0.wf(),
        0 <= j < BLOCKS_PER_CHUNK,
    ensures
        apply_entries(blocks, entries).len() == blocks.len(),
        apply_entries(blocks, entries)[j] == match last_write(entries, j) {
            Some(b) => b,
            None => blocks[j],
        },
    decreases entries.len(),
{
    if entries.len() > 0 {
        let pre = entries.drop_last();
        let e = entries.last();
        assert(entries =~= pre.push(e));
        lemma_apply_entries_push(blocks, pre, e);
        lemma_apply_entries_pointwise(blocks, pre, j);
        assert(e.0.to_index_spec() < BLOCKS_PER_CHUNK);
    }
}

/// Overwrites exactly the positions listed by the delta, in list order; all
/// other blocks are untouched.
pub fn apply_delta(chunk: &mut ChunkData, delta: &ChunkDeltaData)
    requires
        old(chunk).wf(),
        delta.wf(),
    ensures
        final(chunk).pos == old(chunk).pos,
        final(chunk).wf(),
        final(chunk).blocks@ == apply_entries(old(chunk).blocks@, delta.blocks@),
{
    let n = delta.blocks.len();
    for i in 0..n
        invariant
            n == delta.blocks@.len(),
            delta.wf(),
            old(chunk).wf(),
            chunk.pos == old(chunk).pos,
            chunk.blocks@.len() == BLOCKS_PER_CHUNK,
            chunk.blocks@ == apply_entries(old(chunk).blocks@, delta.blocks@.take(i as int)),
    {
        let (p, b) = delta.blocks[i];
        assert(delta.blocks@[i as int].0.wf());
        proof {
            assert(forall|k: int|
                0 <= k < i ==> (#[trigger] delta.blocks@.take(i as int)[k]) == delta.blocks@[k]);
            lemma_apply_entries_pointwise(
                old(chunk).blocks@,
                delta.blocks@.take(i as int),
                p.to_index_spec(),
            );
        }
        let idx = p.to_index();
        chunk.blocks[idx] = b;
        proof {
            lemma_apply_entries_push(old(chunk).blocks@, delta.blocks@.take(i as int), (p, b));
            assert(delta.blocks@.take(i as int).push((p, b)) =~= delta.blocks@.take(i + 1));
        }
    }
    proof {
        assert(delta.blocks@.take(n as int) =~= delta.blocks@);
    }
}

/// Entries for the first `n` flat indices at which `a` and `b` differ, in
/// ascending index order, carrying the value from `b`.
pub open spec fn diff_entries(a: Seq<BlockData>, b: Seq<BlockData>, n: int) -> Seq<
    (LocalBlockPos, BlockData),
>
    decreases n,
{
    if n <= 0 {
        Seq::empty()
    } else {
        let pre = diff_entries(a, b, n - 1);
        if a[n - 1] != b[n - 1] {
            pre.push((LocalBlockPos::from_index_spec(n - 1), b[n - 1]))
        } else {
            pre
        }
    }
}

/// Every diff entry lies inside the chunk.
pub proof fn lemma_diff_entries_wf(a: Seq<BlockData>, b: Seq<BlockData>, n: int)
    requires
        n <= BLOCKS_PER_CHUNK,
    ensures
        forall|k: int|
            0 <= k < diff_entries(a, b, n).len() ==> (#[trigger] diff_entries(a, b, n)[k]).0.wf(),
    decreases n,
{
    if n > 0 {
        lemma_diff_entries_wf(a, b, n - 1);
        let pre = diff_entries(a, b, n - 1);
        let cur = diff_entries(a, b, n);
        if a[n - 1] != b[n - 1] {
            crate::pos::lemma_to_index_of_from_index(n - 1);
            let e = (LocalBlockPos::from_index_spec(n - 1), b[n - 1]);
            assert(cur == pre.push(e));
            assert forall|k: int| 0 <= k < cur.len() implies (#[trigger] cur[k]).0.wf() by {
                if k < pre.len() {
                    assert(cur[k] == pre[k]);
                } else {
                    assert(cur[k] == e);
                }
            }
        }
    }
}

/// What the diff writes to index `j`: the value of `b` exactly where the two
/// arrays differ, nothing elsewhere.
pub proof fn lemma_diff_entries_last_write(a: Seq<BlockData>, b: Seq<BlockData>, n: int, j: int)
    requires
        n <= BLOCKS_PER_CHUNK,
    ensures
        last_write(diff_entries(a, b, n), j) == if 0 <= j < n && a[j] != b[j] {
            Some(b[j])
        } else {
            None::<BlockData>
        },
    decreases n,
{
    if n > 0 {
        lemma_diff_entries_last_write(a, b, n - 1, j);
        if a[n - 1] != b[n - 1] {
            crate::pos::lemma_to_index_of_from_index(n - 1);
            let pre = diff_entries(a, b, n - 1);
            let entries = diff_entries(a, b, n);
            assert(entries.last() == (LocalBlockPos::from_index_spec(n - 1), b[n - 1]));
            assert(entries.drop_last() =~= pre);
        }
    }
}

/// A diff never has more entries than positions compared.
pub proof fn lemma_diff_entries_len(a: Seq<BlockData>, b: Seq<BlockData>, n: int)
    ensures
        diff_entries(a, b, n).len() <= if n >= 0 {
            n
        } else {
            0
        },
    decreases n,
{
    if n > 0 {
        lemma_diff_entries_len(a, b, n - 1);
    }
}

/// The diff of an array against itself is empty.
pub proof fn lemma_diff_entries_self(a: Seq<BlockData>, n: int)
    ensures
        diff_entries(a, a, n).len() == 0,
    decreases n,
{
    if n > 0 {
        lemma_diff_entries_self(a, n - 1);
    }
}

/// Minimal difference of `modified` from `original`: one entry per position
/// whose block differs, in ascending index order.
pub fn to_delta(original: &ChunkData, modified: &ChunkData) -> (r: ChunkDeltaData)
    requires
        original.wf(),
        modified.wf(),
        original.pos == modified.pos,
    ensures
        r.pos == original.pos,
        r.wf(),
        r.blocks@ == diff_entries(original.blocks@, modified.blocks@, BLOCKS_PER_CHUNK as int),
{
    let mut out: Vec<(LocalBlockPos, BlockData)> = Vec::new();
    let n = original.blocks.len();
    for i in 0..n
        invariant
            n == BLOCKS_PER_CHUNK,
            original.wf(),
            modified.wf(),
            out@ == diff_entries(original.blocks@, modified.blocks@, i as int),
            forall|k: int| 0 <= k < out@.len() ==> (#[trigger] out@[k]).0.wf(),
    {
        if original.blocks[i].type_id != modified.blocks[i].type_id {
            out.push((LocalBlockPos::from_index(i), modified.blocks[i]));
        }
    }
    ChunkDeltaData { pos: original.pos, blocks: out }
}

/// Delta round-trip: applying the diff of `edited` against `original` to
/// `original` reconstructs `edited` exactly.
pub proof fn lemma_delta_round_trip(original: ChunkData, edited: ChunkData)
    requires
        original.wf(),
        edited.wf(),
    ensures
        apply_entries(
            original.blocks@,
            diff_entries(original.blocks@, edited.blocks@, BLOCKS_PER_CHUNK as int),
        ) == edited.blocks@,
{
    let a = original.blocks@;
    let b = edited.blocks@;
    let d = diff_entries(a, b, BLOCKS_PER_CHUNK as int);
    lemma_diff_entries_wf(a, b, BLOCKS_PER_CHUNK as int);
    assert forall|j: int| 0 <= j < BLOCKS_PER_CHUNK implies apply_entries(a, d)[j] == b[j] by {
        lemma_apply_entries_pointwise(a, d, j);
        lemma_diff_entries_last_write(a, b, BLOCKS_PER_CHUNK as int, j);
    }
    lemma_apply_entries_pointwise(a, d, 0);
    assert(apply_entries(a, d) =~= b);
}

/// Applying the same delta twice gives the same result as applying it once.
pub proof fn lemma_apply_delta_idempotent(
    blocks: Seq<BlockData>,
    entries: Seq<(LocalBlockPos, BlockData)>,
)
    requires
        blocks.len() == BLOCKS_PER_CHUNK,
        forall|k: int| 0 <= k < entries.len() ==> (#[trigger] entries[k]).0.wf(),
    ensures
        apply_entries(apply_entries(blocks, entries), entries) == apply_entries(blocks, entries),
{
    let once = apply_entries(blocks, entries);
    lemma_apply_entries_pointwise(blocks, entries, 0);
    assert forall|j: int| 0 <= j < BLOCKS_PER_CHUNK implies apply_entries(once, entries)[j]
        == once[j] by {
        lemma_apply_entries_pointwise(blocks, entries, j);
        lemma_apply_entries_pointwise(once, entries, j);
    }
    lemma_apply_entries_pointwise(once, entries, 0);
    assert(apply_entries(once, entries) =~= once);
}

} // verus!
