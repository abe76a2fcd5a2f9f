//! Block types and the registry resolving a block type id to its appearance.

use vstd::prelude::*;

use crate::BlockTypeId;

verus! {

/// Reserved id of the fallback block type, used when an id has no registry
/// entry.
pub const NULL_BLOCK_ID: BlockTypeId = 0;

/// Reserved id of air: no geometry, fully transparent.
pub const AIR_BLOCK_ID: BlockTypeId = 1;

/// How the six faces of a block type are textured.
#[derive(Clone, Debug)]
pub enum BlockTextureLayout {
    /// All six faces share one texture.
    Uniform(String),
    /// One texture group each for the top, the sides, and the bottom.
    TopSideBottom { top: String, sides: String, bottom: String },
    /// No textured faces at all (air).
    NoTexture,
}

/// One entry of the block type registry.
#[derive(Clone, Debug)]
pub struct BlockType {
    pub id: BlockTypeId,
    pub name: String,
    pub texture_layout: BlockTextureLayout,
}

/// Registry of block types. The entry at index 0 is the fallback entry that
/// unregistered ids resolve to.
#[derive(Clone, Debug)]
pub struct BlockRegistry {
    pub types: Vec<BlockType>,
}

/// First entry of `types` whose id is `id`, if any.
pub open spec fn lookup_in(types: Seq<BlockType>, id: BlockTypeId) -> Option<BlockType>
    decreases types.len(),
{
    if types.len() == 0 {
        None
    } else if types[0].id == id {
        Some(types[0])
    } else {
        lookup_in(types.drop_first(), id)
    }
}

proof fn lemma_lookup_found(types: Seq<BlockType>, id: BlockTypeId, i: int)
    requires
        0 <= i < types.len(),
        types[i].id == id,
        forall|j: int| 0 <= j < i ==> types[j].id != id,
    ensures
        lookup_in(types, id) == Some(types[i]),
    decreases types.len(),
{
    if i > 0 {
        lemma_lookup_found(types.drop_first(), id, i - 1);
    }
}

/// A found entry carries the id it was looked up by.
pub proof fn lemma_lookup_in_id(types: Seq<BlockType>, id: BlockTypeId)
    ensures
        lookup_in(types, id) matches Some(t) ==> t.id == id,
    decreases types.len(),
{
    if types.len() > 0 && types[0].id != id {
        lemma_lookup_in_id(types.drop_first(), id);
    }
}

proof fn lemma_lookup_missing(types: Seq<BlockType>, id: BlockTypeId)
    requires
        forall|j: int| 0 <= j < types.len() ==> types[j].id != id,
    ensures
        lookup_in(types, id) is None,
    decreases types.len(),
{
    if types.len() > 0 {
        lemma_lookup_missing(types.drop_first(), id);
    }
}

impl BlockRegistry {
    /// The registry is never empty and its first entry is the fallback.
    pub open spec fn wf(self) -> bool {
        self.types@.len() > 0 && self.types@[0].id == NULL_BLOCK_ID
    }

    /// Entry that `id` resolves to: the first entry with that id, or the
    /// fallback entry when none matches.
    pub open spec fn resolve_spec(self, id: BlockTypeId) -> BlockType {
        match lookup_in(self.types@, id) {
            Some(t) => t,
            None => self.types@[0],
        }
    }
}

impl BlockType {
    /// Whether this entry is the reserved air type.
    pub fn is_air(&self) -> (r: bool)
        ensures
            r == (self.id == AIR_BLOCK_ID),
    {
        self.id == AIR_BLOCK_ID
    }

    /// Resolves a block type id against the registry; unregistered ids fall
    /// back to the entry with `NULL_BLOCK_ID`.
    pub fn from_id<'a>(registry: &'a BlockRegistry, id: BlockTypeId) -> (r: &'a BlockType)
        requires
            registry.wf(),
        ensures
            *r == registry.resolve_spec(id),
    {
        let n = registry.types.len();
        for i in 0..n
            invariant
                n == registry.types@.len(),
                registry.wf(),
                forall|j: int| 0 <= j < i ==> registry.types@[j].id != id,
        {
            if registry.types[i].id == id {
                proof {
                    lemma_lookup_found(registry.types@, id, i as int);
                }
                return &registry.types[i];
            }
        }
        proof {
            lemma_lookup_missing(registry.types@, id);
        }
        &registry.types[0]
    }
}

/// Builds the default block type registry: the fallback entry, air, stone,
/// dirt, and grass.
pub fn default_registry() -> (r: BlockRegistry)
    ensures
        r.wf(),
        r.types@.len() == 5,
        forall|j: int| 0 <= j < 5 ==> (#[trigger] r.types@[j]).id == j,
        r.types@[0].name@ == "null_block"@,
        r.types@[1].name@ == "air"@,
        r.types@[2].name@ == "stone_block"@,
        r.types@[3].name@ == "dirt_block"@,
        r.types@[4].name@ == "grass_block"@,
        r.types@[0].texture_layout matches BlockTextureLayout::Uniform(t) && t@
            == "null_block.png"@,
        r.types@[1].texture_layout is NoTexture,
        r.types@[2].texture_layout matches BlockTextureLayout::Uniform(t) && t@
            == "stone_block.png"@,
        r.types@[3].texture_layout matches BlockTextureLayout::Uniform(t) && t@
            == "dirt_block.png"@,
        r.types@[4].texture_layout matches BlockTextureLayout::TopSideBottom {
            top,
            sides,
            bottom,
        } && top@ == "grass_block_top.png"@ && sides@ == "grass_block_side.png"@ && bottom@
            == "dirt_block.png"@,
{
    let mut types: Vec<BlockType> = Vec::new();
    types.push(
        BlockType {
            id: 0,
            name: "null_block".to_owned(),
            texture_layout: BlockTextureLayout::Uniform("null_block.png".to_owned()),
        },
    );
    types.push(
        BlockType { id: 1, name: "air".to_owned(), texture_layout: BlockTextureLayout::NoTexture },
    );
    types.push(
        BlockType {
            id: 2,
            name: "stone_block".to_owned(),
            texture_layout: BlockTextureLayout::Uniform("stone_block.png".to_owned()),
        },
    );
    types.push(
        BlockType {
            id: 3,
            name: "dirt_block".to_owned(),
            texture_layout: BlockTextureLayout::Uniform("dirt_block.png".to_owned()),
        },
    );
    types.push(
        BlockType {
            id: 4,
            name: "grass_block".to_owned(),
            texture_layout: BlockTextureLayout::TopSideBottom {
                top: "grass_block_top.png".to_owned(),
                sides: "grass_block_side.png".to_owned(),
                bottom: "dirt_block.png".to_owned(),
            },
        },
    );
    BlockRegistry { types }
}

} // verus!
