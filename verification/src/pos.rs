//! Chunk and block positions, face directions, and the bijection between
//! local block positions and flat array indices.

use vstd::prelude::*;
use vstd::arithmetic::div_mod::{lemma_fundamental_div_mod, lemma_fundamental_div_mod_converse};

use crate::{BLOCKS_PER_CHUNK, CHUNK_WIDTH, WORLD_HEIGHT};

verus! {

/// Position of a chunk on the horizontal chunk grid.
#[derive(Clone, Copy, Debug, PartialEq, Eq, Structural, Hash)]
pub struct ChunkPos {
    pub x: i32,
    pub z: i32,
}

/// A single axis-aligned face direction of a block.
#[derive(Clone, Copy, Debug, PartialEq, Eq, Structural, Hash)]
pub enum Direction {
    PosX,
    NegX,
    PosY,
    NegY,
    PosZ,
    NegZ,
}

impl Direction {
    /// Canonical numbering of the six directions, used to order emitted faces.
    pub open spec fn index_spec(self) -> int {
        match self {
            Direction::PosX => 0,
            Direction::NegX => 1,
            Direction::PosY => 2,
            Direction::NegY => 3,
            Direction::PosZ => 4,
            Direction::NegZ => 5,
        }
    }

    /// Direction with the given canonical number.
    pub open spec fn from_index_spec(d: int) -> Direction {
        if d == 0 {
            Direction::PosX
        } else if d == 1 {
            Direction::NegX
        } else if d == 2 {
            Direction::PosY
        } else if d == 3 {
            Direction::NegY
        } else if d == 4 {
            Direction::PosZ
        } else {
            Direction::NegZ
        }
    }

    /// Returns the direction with the given canonical number.
    pub fn from_index(d: u8) -> (r: Direction)
        requires
            d < 6,
        ensures
            r == Direction::from_index_spec(d as int),
            r.index_spec() == d as int,
    {
        match d {
            0 => Direction::PosX,
            1 => Direction::NegX,
            2 => Direction::PosY,
            3 => Direction::NegY,
            4 => Direction::PosZ,
            _ => Direction::NegZ,
        }
    }
}

/// A set of face directions (possibly empty), one flag per direction.
#[derive(Clone, Copy, Debug, PartialEq, Eq, Structural)]
pub struct Directions {
    pub pos_x: bool,
    pub neg_x: bool,
    pub pos_y: bool,
    pub neg_y: bool,
    pub pos_z: bool,
    pub neg_z: bool,
}

impl Directions {
    /// Whether the set holds the given direction.
    pub open spec fn spec_contains(self, dir: Direction) -> bool {
        match dir {
            Direction::PosX => self.pos_x,
            Direction::NegX => self.neg_x,
            Direction::PosY => self.pos_y,
            Direction::NegY => self.neg_y,
            Direction::PosZ => self.pos_z,
            Direction::NegZ => self.neg_z,
        }
    }

    /// The set holding all six directions.
    pub fn all_flags() -> (r: Directions)
        ensures
            forall|d: Direction| r.spec_contains(d),
    {
        Directions { pos_x: true, neg_x: true, pos_y: true, neg_y: true, pos_z: true, neg_z: true }
    }

    /// The empty set of directions.
    pub fn none() -> (r: Directions)
        ensures
            forall|d: Direction| !r.spec_contains(d),
    {
        Directions {
            pos_x: false,
            neg_x: false,
            pos_y: false,
            neg_y: false,
            pos_z: false,
            neg_z: false,
        }
    }

    /// Whether the set holds the given direction.
    pub fn contains(&self, dir: Direction) -> (r: bool)
        ensures
            r == self.spec_contains(dir),
    {
        match dir {
            Direction::PosX => self.pos_x,
            Direction::NegX => self.neg_x,
            Direction::PosY => self.pos_y,
            Direction::NegY => self.neg_y,
            Direction::PosZ => self.pos_z,
            Direction::NegZ => self.neg_z,
        }
    }

    /// The same set with the given direction removed.
    pub fn without(self, dir: Direction) -> (r: Directions)
        ensures
            !r.spec_contains(dir),
            forall|d: Direction| d != dir ==> r.spec_contains(d) == self.spec_contains(d),
    {
        match dir {
            Direction::PosX => Directions { pos_x: false, ..self },
            Direction::NegX => Directions { neg_x: false, ..self },
            Direction::PosY => Directions { pos_y: false, ..self },
            Direction::NegY => Directions { neg_y: false, ..self },
            Direction::PosZ => Directions { pos_z: false, ..self },
            Direction::NegZ => Directions { neg_z: false, ..self },
        }
    }
}

impl From<Directions> for Direction {
    /// Picks the first direction held by the set, in canonical order; a set
    /// holding exactly one direction yields that direction. An empty set
    /// yields the last direction.
    fn from(value: Directions) -> (r: Direction) {
        if value.pos_x {
            Direction::PosX
        } else if value.neg_x {
            Direction::NegX
        } else if value.pos_y {
            Direction::PosY
        } else if value.neg_y {
            Direction::NegY
        } else if value.pos_z {
            Direction::PosZ
        } else {
            Direction::NegZ
        }
    }
}

impl vstd::std_specs::convert::FromSpecImpl<Directions> for Direction {
    open spec fn obeys_from_spec() -> bool {
        true
    }

    open spec fn from_spec(value: Directions) -> Direction {
        if value.pos_x {
            Direction::PosX
        } else if value.neg_x {
            Direction::NegX
        } else if value.pos_y {
            Direction::PosY
        } else if value.neg_y {
            Direction::NegY
        } else if value.pos_z {
            Direction::PosZ
        } else {
            Direction::NegZ
        }
    }
}

/// Position of a block inside a chunk: `0 <= x, z < CHUNK_WIDTH` and
/// `0 <= y < WORLD_HEIGHT`.
#[derive(Clone, Copy, Debug, PartialEq, Eq, Structural, Hash)]
pub struct LocalBlockPos {
    pub x: u8,
    pub y: u8,
    pub z: u8,
}

impl LocalBlockPos {
    /// The x and z coordinates lie inside the chunk. (The y coordinate always
    /// does, since the chunk is as tall as the coordinate type allows.)
    pub open spec fn wf(self) -> bool {
        self.x < CHUNK_WIDTH && self.z < CHUNK_WIDTH
    }

    pub open spec fn x_spec(self) -> u8 {
        self.x
    }

    pub open spec fn y_spec(self) -> u8 {
        self.y
    }

    pub open spec fn z_spec(self) -> u8 {
        self.z
    }

    /// Flat index of this position in a chunk's block array: y outermost,
    /// then z, then x.
    pub open spec fn to_index_spec(self) -> int {
        self.y * CHUNK_WIDTH * CHUNK_WIDTH + self.z * CHUNK_WIDTH + self.x
    }

    /// Position whose flat index is `i`.
    pub open spec fn from_index_spec(i: int) -> LocalBlockPos {
        LocalBlockPos {
            x: (i % CHUNK_WIDTH as int) as u8,
            y: (i / (CHUNK_WIDTH * CHUNK_WIDTH) as int) as u8,
            z: ((i / CHUNK_WIDTH as int) % CHUNK_WIDTH as int) as u8,
        }
    }

    /// Builds a local position; x and z are reduced modulo the chunk width,
    /// so the result always lies inside the chunk.
    pub fn new(x: u8, y: u8, z: u8) -> (r: LocalBlockPos)
        ensures
            r.wf(),
            r.x_spec() == x % (CHUNK_WIDTH as u8),
            r.y_spec() == y,
            r.z_spec() == z % (CHUNK_WIDTH as u8),
    {
        LocalBlockPos { x: x % (CHUNK_WIDTH as u8), y, z: z % (CHUNK_WIDTH as u8) }
    }

    /// Builds the local position with the given flat array index.
    pub fn from_index(i: usize) -> (r: LocalBlockPos)
        requires
            i < BLOCKS_PER_CHUNK,
        ensures
            r == LocalBlockPos::from_index_spec(i as int),
            r.wf(),
            r.to_index_spec() == i,
    {
        proof {
            lemma_to_index_of_from_index(i as int);
        }
        LocalBlockPos {
            x: (i % CHUNK_WIDTH) as u8,
            y: (i / (CHUNK_WIDTH * CHUNK_WIDTH)) as u8,
            z: ((i / CHUNK_WIDTH) % CHUNK_WIDTH) as u8,
        }
    }

    /// Flat index of this position in a chunk's block array.
    pub fn to_index(&self) -> (r: usize)
        requires
            self.wf(),
        ensures
            r == self.to_index_spec(),
            r < BLOCKS_PER_CHUNK,
    {
        (self.y as usize) * CHUNK_WIDTH * CHUNK_WIDTH + (self.z as usize) * CHUNK_WIDTH + (
        self.x as usize)
    }

    pub fn x(&self) -> (r: u8)
        ensures
            r == self.x_spec(),
    {
        self.x
    }

    pub fn y(&self) -> (r: u8)
        ensures
            r == self.y_spec(),
    {
        self.y
    }

    pub fn z(&self) -> (r: u8)
        ensures
            r == self.z_spec(),
    {
        self.z
    }

    /// The neighboring position one step in the given direction, or `None`
    /// when that step leaves the chunk.
    pub open spec fn neighbor_spec(self, dir: Direction) -> Option<LocalBlockPos> {
        match dir {
            Direction::PosX => if self.x < CHUNK_WIDTH - 1 {
                Some(LocalBlockPos { x: (self.x + 1) as u8, ..self })
            } else {
                None
            },
            Direction::NegX => if self.x > 0 {
                Some(LocalBlockPos { x: (self.x - 1) as u8, ..self })
            } else {
                None
            },
            Direction::PosY => if self.y < WORLD_HEIGHT - 1 {
                Some(LocalBlockPos { y: (self.y + 1) as u8, ..self })
            } else {
                None
            },
            Direction::NegY => if self.y > 0 {
                Some(LocalBlockPos { y: (self.y - 1) as u8, ..self })
            } else {
                None
            },
            Direction::PosZ => if self.z < CHUNK_WIDTH - 1 {
                Some(LocalBlockPos { z: (self.z + 1) as u8, ..self })
            } else {
                None
            },
            Direction::NegZ => if self.z > 0 {
                Some(LocalBlockPos { z: (self.z - 1) as u8, ..self })
            } else {
                None
            },
        }
    }

    /// Returns the adjacent position in the given direction, or `None` at the
    /// chunk boundary.
    pub fn get_neighbor(&self, dir: Direction) -> (r: Option<LocalBlockPos>)
        requires
            self.wf(),
        ensures
            r == self.neighbor_spec(dir),
            r is Some ==> r->Some_0.wf(),
    {
        match dir {
            Direction::PosX => {
                if (self.x as usize) < CHUNK_WIDTH - 1 {
                    return Some(LocalBlockPos { x: self.x + 1, ..*self });
                }
            },
            Direction::NegX => {
                if self.x > 0 {
                    return Some(LocalBlockPos { x: self.x - 1, ..*self });
                }
            },
            Direction::PosY => {
                if (self.y as usize) < WORLD_HEIGHT - 1 {
                    return Some(LocalBlockPos { y: self.y + 1, ..*self });
                }
            },
            Direction::NegY => {
                if self.y > 0 {
                    return Some(LocalBlockPos { y: self.y - 1, ..*self });
                }
            },
            Direction::PosZ => {
                if (self.z as usize) < CHUNK_WIDTH - 1 {
                    return Some(LocalBlockPos { z: self.z + 1, ..*self });
                }
            },
            Direction::NegZ => {
                if self.z > 0 {
                    return Some(LocalBlockPos { z: self.z - 1, ..*self });
                }
            },
        }
        None
    }
}

/// Index bijection, one direction: decoding the flat index of a valid local
/// position yields that position again.
pub proof fn lemma_from_index_of_to_index(p: LocalBlockPos)
    requires
        p.wf(),
    ensures
        LocalBlockPos::from_index_spec(p.to_index_spec()) == p,
{
    let w = CHUNK_WIDTH as int;
    let i = p.to_index_spec();
    assert(i == (p.y * w + p.z) * w + p.x) by (nonlinear_arith)
        requires
            i == p.y * w * w + p.z * w + p.x && w == CHUNK_WIDTH,
    ;
    lemma_fundamental_div_mod_converse(i, w, p.y * w + p.z, p.x as int);
    assert(i % w == p.x && i / w == p.y * w + p.z);
    lemma_fundamental_div_mod_converse(p.y * w + p.z, w, p.y as int, p.z as int);
    assert((i / w) % w == p.z && (i / w) / w == p.y);
    assert(i / (w * w) == (i / w) / w) by {
        lemma_fundamental_div_mod_converse(i, w * w, p.y as int, p.z * w + p.x);
    }
}

/// Index bijection, other direction: the flat index of the position decoded
/// from `i` is `i` itself.
pub proof fn lemma_to_index_of_from_index(i: int)
    requires
        0 <= i < BLOCKS_PER_CHUNK,
    ensures
        LocalBlockPos::from_index_spec(i).wf(),
        LocalBlockPos::from_index_spec(i).to_index_spec() == i,
{
    let w = CHUNK_WIDTH as int;
    lemma_fundamental_div_mod(i, w);
    lemma_fundamental_div_mod(i / w, w);
    assert(i / (w * w) == (i / w) / w) by {
        lemma_fundamental_div_mod_converse(
            i,
            w * w,
            (i / w) / w,
            ((i / w) % w) * w + i % w,
        );
    }
    assert(LocalBlockPos::from_index_spec(i).to_index_spec() == ((i / w) / w) * w * w + ((i / w)
        % w) * w + i % w);
    assert(((i / w) / w) * w * w + ((i / w) % w) * w + i % w == ((i / w) / w * w + (i / w) % w) * w
        + i % w) by (nonlinear_arith);
}

} // verus!
