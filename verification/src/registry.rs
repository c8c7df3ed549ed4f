//! The block type registry: an injected, read-only lookup from block
//! type identifiers to their properties. The mesh builder consults it
//! for transparency; the terrain generator for the identifiers of its
//! named layer blocks. A missing or unknown identifier is treated as
//! opaque and not special.

use vstd::prelude::*;

verus! {

use crate::BlockID;
use vstd::string::StringExecFns;

/// One block type: its identifier, its name, and whether faces
/// adjacent to it are still drawn.
#[derive(Debug)]
pub struct Block {
    pub id: BlockID,
    pub name: String,
    pub transparent: bool,
}

/// The identifiers of the transparent block types of a table, in table
/// order.
pub open spec fn transparent_ids(s: Seq<Block>) -> Seq<BlockID>
    decreases s.len(),
{
    if s.len() == 0 {
        Seq::empty()
    } else {
        transparent_ids(s.drop_last()) + (if s.last().transparent {
            seq![s.last().id]
        } else {
            Seq::empty()
        })
    }
}

/// Provides access to the table of known block types.
pub struct BlockManager {
    /// The known block types.
    pub blocks: Vec<Block>,
    /// The identifiers of the transparent block types, derived from
    /// `blocks` at construction.
    pub transparent_blocks: Vec<BlockID>,
}

impl BlockManager {
    /// Some known block type with this identifier is transparent.
    pub open spec fn block_transparent(self, id: BlockID) -> bool {
        exists|i: int|
            0 <= i < self.blocks@.len() && (#[trigger] self.blocks@[i]).id == id
                && self.blocks@[i].transparent
    }

    /// Block names are unique, so lookups by name are unambiguous, and
    /// the derived transparency list agrees with the block table.
    pub open spec fn wf(self) -> bool {
        &&& forall|i: int, j: int|
            0 <= i < j < self.blocks@.len() ==> (#[trigger] self.blocks@[i]).name@ != (
            #[trigger] self.blocks@[j]).name@
        &&& self.transparent_blocks@ == transparent_ids(self.blocks@)
    }

    /// Builds the registry from a table of block types with unique
    /// names, deriving the list of transparent identifiers.
    pub fn new(blocks: Vec<Block>) -> (r: Self)
        requires
            forall|i: int, j: int|
                0 <= i < j < blocks@.len() ==> (#[trigger] blocks@[i]).name@ != (
                #[trigger] blocks@[j]).name@,
        ensures
            r.wf(),
            r.blocks == blocks,
    {
        let mut transparent_blocks: Vec<BlockID> = Vec::new();
        let mut i: usize = 0;
        while i < blocks.len()
            invariant
                i <= blocks@.len(),
                transparent_blocks@ == transparent_ids(blocks@.take(i as int)),
            decreases blocks@.len() - i,
        {
            proof {
                assert(blocks@.take(i + 1).drop_last() =~= blocks@.take(i as int));
                assert(blocks@.take(i + 1).last() == blocks@[i as int]);
            }
            if blocks[i].transparent {
                transparent_blocks.push(blocks[i].id);
            }
            proof {
                assert(transparent_blocks@ =~= transparent_ids(blocks@.take(i + 1)));
            }
            i = i + 1;
        }
        proof {
            assert(blocks@.take(blocks@.len() as int) =~= blocks@);
        }
        Self { blocks, transparent_blocks }
    }

    /// Looks up a block type by name.
    pub fn block(&self, block_name: &str) -> (r: Option<&Block>)
        ensures
            r matches Some(b) ==> b.name@ == block_name@ && (exists|i: int|
                0 <= i < self.blocks@.len() && #[trigger] self.blocks@[i] == *b),
            r is None ==> forall|i: int|
                0 <= i < self.blocks@.len() ==> (#[trigger] self.blocks@[i]).name@ != block_name@,
    {
        let key = String::from_str(block_name);
        let mut i: usize = 0;
        while i < self.blocks.len()
            invariant
                key@ == block_name@,
                i <= self.blocks@.len(),
                forall|j: int|
                    0 <= j < i ==> (#[trigger] self.blocks@[j]).name@ != block_name@,
            decreases self.blocks@.len() - i,
        {
            if self.blocks[i].name == key {
                return Some(&self.blocks[i]);
            }
            i = i + 1;
        }
        None
    }

    /// Whether the block type `id` is transparent: faces adjacent to a
    /// transparent block are drawn. Unknown identifiers are opaque.
    pub fn is_transparent(&self, id: BlockID) -> (r: bool)
        ensures
            r == self.block_transparent(id),
    {
        let mut i: usize = 0;
        while i < self.blocks.len()
            invariant
                i <= self.blocks@.len(),
                forall|j: int|
                    0 <= j < i ==> !((#[trigger] self.blocks@[j]).id == id
                        && self.blocks@[j].transparent),
            decreases self.blocks@.len() - i,
        {
            if self.blocks[i].id == id && self.blocks[i].transparent {
                proof {
                    assert((#[trigger] self.blocks@[i as int]).id == id
                        && self.blocks@[i as int].transparent);
                }
                return true;
            }
            i = i + 1;
        }
        false
    }
}

} // verus!
