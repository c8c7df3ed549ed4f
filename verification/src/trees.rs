//! Tree placement: a feature that grows a trunk and a canopy of
//! leaves at columns chosen by an injected placement field, rooted
//! where the ground turns to air.

use vstd::prelude::*;

verus! {

use crate::{BlockID, CHUNK_SIZE_X, CHUNK_SIZE_Z};
use crate::chunk::{lemma_air_start_none, lemma_air_start_some, spec_air_start, ChunkData};
use crate::features::{
    fill_terrain_upto,
    fill_waitlist_upto,
    lemma_fill_terrain_changes,
    lemma_fill_waitlist_writes_only,
    lemma_merge_writes_only,
    spec_merge,
    waitlist_writes_only,
    Feature,
    FeatureWaitlist,
    WaitlistEntry,
};
use crate::positions::{BlockOffset, ChunkPos, LocalBlockPos};

/// The block type of a tree trunk.
pub const TRUNK_BLOCK: BlockID = 23;

/// The block type of a tree canopy.
pub const LEAVES_BLOCK: BlockID = 24;

/// Every offset stays within one chunk's reach sideways, as
/// [`Feature::fill`] asks of its callers.
pub open spec fn offsets_bounded(s: Seq<BlockOffset>) -> bool {
    forall|k: int|
        0 <= k < s.len() ==> -(CHUNK_SIZE_X as int) <= (#[trigger] s[k]).x <= CHUNK_SIZE_X && -(
        CHUNK_SIZE_Z as int) <= s[k].z <= CHUNK_SIZE_Z
}

/// Appends one offset, keeping the table within bounds.
fn push_offset(v: &mut Vec<BlockOffset>, x: isize, y: isize, z: isize)
    requires
        offsets_bounded(old(v)@),
        -(CHUNK_SIZE_X as int) <= x <= CHUNK_SIZE_X,
        -(CHUNK_SIZE_Z as int) <= z <= CHUNK_SIZE_Z,
    ensures
        final(v)@ == old(v)@.push(BlockOffset { x, y, z }),
        offsets_bounded(final(v)@),
{
    v.push(BlockOffset::new(x, y, z));
    proof {
        assert forall|k: int|
            0 <= k < v@.len() implies -(CHUNK_SIZE_X as int) <= (#[trigger] v@[k]).x
            <= CHUNK_SIZE_X && -(CHUNK_SIZE_Z as int) <= v@[k].z <= CHUNK_SIZE_Z by {
            if k < v@.len() - 1 {
                assert(v@[k] == old(v)@[k]);
            }
        }
    }
}

/// Decides at which columns trees sprout. This stands for the
/// independently seeded noise field of the engine: nothing is promised
/// of its answers, and the generation that consumes them is verified
/// for every answer.
pub trait TreePlacement {
    /// Whether a tree's origin lies at the global column (x, z).
    fn tree_at(&self, x: isize, z: isize) -> bool;
}

/// One quarter of the canopy offset table.
pub open spec fn leaves_a_spec() -> Seq<BlockOffset> {
    seq![
        BlockOffset { x: -2isize, y: 3, z: -1isize },
        BlockOffset { x: -1isize, y: 3, z: 4 },
        BlockOffset { x: 1, y: 3, z: -4isize },
        BlockOffset { x: 1, y: 3, z: 3 },
        BlockOffset { x: -2isize, y: 4, z: -1isize },
        BlockOffset { x: -2isize, y: 4, z: 0 },
        BlockOffset { x: -2isize, y: 4, z: 2 },
        BlockOffset { x: -1isize, y: 4, z: -1isize },
        BlockOffset { x: -1isize, y: 4, z: 0 },
        BlockOffset { x: -1isize, y: 4, z: 1 },
        BlockOffset { x: -1isize, y: 4, z: 2 },
        BlockOffset { x: -1isize, y: 4, z: 3 },
        BlockOffset { x: -1isize, y: 4, z: 4 },
        BlockOffset { x: 0, y: 4, z: -3isize },
        BlockOffset { x: 0, y: 4, z: -2isize },
        BlockOffset { x: 0, y: 4, z: 2 },
        BlockOffset { x: 0, y: 4, z: 3 },
        BlockOffset { x: 0, y: 4, z: 4 },
        BlockOffset { x: 1, y: 4, z: -4isize },
        BlockOffset { x: 1, y: 4, z: -3isize },
        BlockOffset { x: 1, y: 4, z: -1isize },
        BlockOffset { x: 1, y: 4, z: 3 },
        BlockOffset { x: 1, y: 4, z: 4 },
        BlockOffset { x: 2, y: 4, z: -1isize },
        BlockOffset { x: 2, y: 4, z: 0 },
        BlockOffset { x: 2, y: 4, z: 1 },
        BlockOffset { x: 2, y: 4, z: 2 },
        BlockOffset { x: 4, y: 4, z: 0 },
        BlockOffset { x: -3isize, y: 5, z: 1 },
        BlockOffset { x: -2isize, y: 5, z: -2isize },
        BlockOffset { x: -2isize, y: 5, z: -1isize },
        BlockOffset { x: -2isize, y: 5, z: 0 },
        BlockOffset { x: -2isize, y: 5, z: 1 },
    ]
}

/// Builds one quarter of the canopy offset table.
fn leaves_part_a() -> (r: Vec<BlockOffset>)
    ensures
        r@ == leaves_a_spec(),
        offsets_bounded(r@),
{
    let mut v: Vec<BlockOffset> = Vec::new();
    push_offset(&mut v, -2, 3, -1);
    push_offset(&mut v, -1, 3, 4);
    push_offset(&mut v, 1, 3, -4);
    push_offset(&mut v, 1, 3, 3);
    push_offset(&mut v, -2, 4, -1);
    push_offset(&mut v, -2, 4, 0);
    push_offset(&mut v, -2, 4, 2);
    push_offset(&mut v, -1, 4, -1);
    push_offset(&mut v, -1, 4, 0);
    push_offset(&mut v, -1, 4, 1);
    push_offset(&mut v, -1, 4, 2);
    push_offset(&mut v, -1, 4, 3);
    push_offset(&mut v, -1, 4, 4);
    push_offset(&mut v, 0, 4, -3);
    push_offset(&mut v, 0, 4, -2);
    push_offset(&mut v, 0, 4, 2);
    push_offset(&mut v, 0, 4, 3);
    push_offset(&mut v, 0, 4, 4);
    push_offset(&mut v, 1, 4, -4);
    push_offset(&mut v, 1, 4, -3);
    push_offset(&mut v, 1, 4, -1);
    push_offset(&mut v, 1, 4, 3);
    push_offset(&mut v, 1, 4, 4);
    push_offset(&mut v, 2, 4, -1);
    push_offset(&mut v, 2, 4, 0);
    push_offset(&mut v, 2, 4, 1);
    push_offset(&mut v, 2, 4, 2);
    push_offset(&mut v, 4, 4, 0);
    push_offset(&mut v, -3, 5, 1);
    push_offset(&mut v, -2, 5, -2);
    push_offset(&mut v, -2, 5, -1);
    push_offset(&mut v, -2, 5, 0);
    push_offset(&mut v, -2, 5, 1);
    proof {
        assert(v@ =~= leaves_a_spec());
    }
    v
}

/// One quarter of the canopy offset table.
pub open spec fn leaves_b_spec() -> Seq<BlockOffset> {
    seq![
        BlockOffset { x: -2isize, y: 5, z: 2 },
        BlockOffset { x: -2isize, y: 5, z: 3 },
        BlockOffset { x: -1isize, y: 5, z: -3isize },
        BlockOffset { x: -1isize, y: 5, z: -2isize },
        BlockOffset { x: -1isize, y: 5, z: -1isize },
        BlockOffset { x: -1isize, y: 5, z: 0 },
        BlockOffset { x: -1isize, y: 5, z: 1 },
        BlockOffset { x: -1isize, y: 5, z: 2 },
        BlockOffset { x: -1isize, y: 5, z: 3 },
        BlockOffset { x: -1isize, y: 5, z: 4 },
        BlockOffset { x: 0, y: 5, z: -4isize },
        BlockOffset { x: 0, y: 5, z: -3isize },
        BlockOffset { x: 0, y: 5, z: -2isize },
        BlockOffset { x: 0, y: 5, z: -1isize },
        BlockOffset { x: 0, y: 5, z: 2 },
        BlockOffset { x: 0, y: 5, z: 3 },
        BlockOffset { x: 0, y: 5, z: 4 },
        BlockOffset { x: 1, y: 5, z: -3isize },
        BlockOffset { x: 1, y: 5, z: -2isize },
        BlockOffset { x: 1, y: 5, z: -1isize },
        BlockOffset { x: 1, y: 5, z: 2 },
        BlockOffset { x: 1, y: 5, z: 3 },
        BlockOffset { x: 1, y: 5, z: 4 },
        BlockOffset { x: 2, y: 5, z: -3isize },
        BlockOffset { x: 2, y: 5, z: -2isize },
        BlockOffset { x: 2, y: 5, z: -1isize },
        BlockOffset { x: 2, y: 5, z: 0 },
        BlockOffset { x: 2, y: 5, z: 1 },
        BlockOffset { x: 2, y: 5, z: 2 },
        BlockOffset { x: 2, y: 5, z: 3 },
        BlockOffset { x: 2, y: 5, z: 4 },
        BlockOffset { x: 3, y: 5, z: -2isize },
        BlockOffset { x: 3, y: 5, z: -1isize },
    ]
}

/// Builds one quarter of the canopy offset table.
fn leaves_part_b() -> (r: Vec<BlockOffset>)
    ensures
        r@ == leaves_b_spec(),
        offsets_bounded(r@),
{
    let mut v: Vec<BlockOffset> = Vec::new();
    push_offset(&mut v, -2, 5, 2);
    push_offset(&mut v, -2, 5, 3);
    push_offset(&mut v, -1, 5, -3);
    push_offset(&mut v, -1, 5, -2);
    push_offset(&mut v, -1, 5, -1);
    push_offset(&mut v, -1, 5, 0);
    push_offset(&mut v, -1, 5, 1);
    push_offset(&mut v, -1, 5, 2);
    push_offset(&mut v, -1, 5, 3);
    push_offset(&mut v, -1, 5, 4);
    push_offset(&mut v, 0, 5, -4);
    push_offset(&mut v, 0, 5, -3);
    push_offset(&mut v, 0, 5, -2);
    push_offset(&mut v, 0, 5, -1);
    push_offset(&mut v, 0, 5, 2);
    push_offset(&mut v, 0, 5, 3);
    push_offset(&mut v, 0, 5, 4);
    push_offset(&mut v, 1, 5, -3);
    push_offset(&mut v, 1, 5, -2);
    push_offset(&mut v, 1, 5, -1);
    push_offset(&mut v, 1, 5, 2);
    push_offset(&mut v, 1, 5, 3);
    push_offset(&mut v, 1, 5, 4);
    push_offset(&mut v, 2, 5, -3);
    push_offset(&mut v, 2, 5, -2);
    push_offset(&mut v, 2, 5, -1);
    push_offset(&mut v, 2, 5, 0);
    push_offset(&mut v, 2, 5, 1);
    push_offset(&mut v, 2, 5, 2);
    push_offset(&mut v, 2, 5, 3);
    push_offset(&mut v, 2, 5, 4);
    push_offset(&mut v, 3, 5, -2);
    push_offset(&mut v, 3, 5, -1);
    proof {
        assert(v@ =~= leaves_b_spec());
    }
    v
}

/// One quarter of the canopy offset table.
pub open spec fn leaves_c_spec() -> Seq<BlockOffset> {
    seq![
        BlockOffset { x: 3, y: 5, z: 0 },
        BlockOffset { x: 3, y: 5, z: 1 },
        BlockOffset { x: 3, y: 5, z: 2 },
        BlockOffset { x: 3, y: 5, z: 3 },
        BlockOffset { x: 4, y: 5, z: 0 },
        BlockOffset { x: 4, y: 5, z: 1 },
        BlockOffset { x: -3isize, y: 6, z: -1isize },
        BlockOffset { x: -2isize, y: 6, z: -1isize },
        BlockOffset { x: -2isize, y: 6, z: 0 },
        BlockOffset { x: -2isize, y: 6, z: 1 },
        BlockOffset { x: -2isize, y: 6, z: 2 },
        BlockOffset { x: -1isize, y: 6, z: -1isize },
        BlockOffset { x: -1isize, y: 6, z: 0 },
        BlockOffset { x: -1isize, y: 6, z: 1 },
        BlockOffset { x: -1isize, y: 6, z: 2 },
        BlockOffset { x: -1isize, y: 6, z: 3 },
        BlockOffset { x: 0, y: 6, z: -2isize },
        BlockOffset { x: 0, y: 6, z: -1isize },
        BlockOffset { x: 0, y: 6, z: 0 },
        BlockOffset { x: 0, y: 6, z: 1 },
        BlockOffset { x: 0, y: 6, z: 2 },
        BlockOffset { x: 0, y: 6, z: 3 },
        BlockOffset { x: 1, y: 6, z: -2isize },
        BlockOffset { x: 1, y: 6, z: -1isize },
        BlockOffset { x: 1, y: 6, z: 0 },
        BlockOffset { x: 1, y: 6, z: 1 },
        BlockOffset { x: 1, y: 6, z: 2 },
        BlockOffset { x: 2, y: 6, z: -1isize },
        BlockOffset { x: 2, y: 6, z: 0 },
        BlockOffset { x: 2, y: 6, z: 1 },
        BlockOffset { x: 2, y: 6, z: 2 },
        BlockOffset { x: 3, y: 6, z: -1isize },
        BlockOffset { x: 3, y: 6, z: 0 },
    ]
}

/// Builds one quarter of the canopy offset table.
fn leaves_part_c() -> (r: Vec<BlockOffset>)
    ensures
        r@ == leaves_c_spec(),
        offsets_bounded(r@),
{
    let mut v: Vec<BlockOffset> = Vec::new();
    push_offset(&mut v, 3, 5, 0);
    push_offset(&mut v, 3, 5, 1);
    push_offset(&mut v, 3, 5, 2);
    push_offset(&mut v, 3, 5, 3);
    push_offset(&mut v, 4, 5, 0);
    push_offset(&mut v, 4, 5, 1);
    push_offset(&mut v, -3, 6, -1);
    push_offset(&mut v, -2, 6, -1);
    push_offset(&mut v, -2, 6, 0);
    push_offset(&mut v, -2, 6, 1);
    push_offset(&mut v, -2, 6, 2);
    push_offset(&mut v, -1, 6, -1);
    push_offset(&mut v, -1, 6, 0);
    push_offset(&mut v, -1, 6, 1);
    push_offset(&mut v, -1, 6, 2);
    push_offset(&mut v, -1, 6, 3);
    push_offset(&mut v, 0, 6, -2);
    push_offset(&mut v, 0, 6, -1);
    push_offset(&mut v, 0, 6, 0);
    push_offset(&mut v, 0, 6, 1);
    push_offset(&mut v, 0, 6, 2);
    push_offset(&mut v, 0, 6, 3);
    push_offset(&mut v, 1, 6, -2);
    push_offset(&mut v, 1, 6, -1);
    push_offset(&mut v, 1, 6, 0);
    push_offset(&mut v, 1, 6, 1);
    push_offset(&mut v, 1, 6, 2);
    push_offset(&mut v, 2, 6, -1);
    push_offset(&mut v, 2, 6, 0);
    push_offset(&mut v, 2, 6, 1);
    push_offset(&mut v, 2, 6, 2);
    push_offset(&mut v, 3, 6, -1);
    push_offset(&mut v, 3, 6, 0);
    proof {
        assert(v@ =~= leaves_c_spec());
    }
    v
}

/// One quarter of the canopy offset table.
pub open spec fn leaves_d_spec() -> Seq<BlockOffset> {
    seq![
        BlockOffset { x: 3, y: 6, z: 1 },
        BlockOffset { x: 4, y: 6, z: -1isize },
        BlockOffset { x: -2isize, y: 7, z: 0 },
        BlockOffset { x: -2isize, y: 7, z: 1 },
        BlockOffset { x: -1isize, y: 7, z: -1isize },
        BlockOffset { x: -1isize, y: 7, z: 0 },
        BlockOffset { x: -1isize, y: 7, z: 1 },
        BlockOffset { x: 0, y: 7, z: -2isize },
        BlockOffset { x: 0, y: 7, z: -1isize },
        BlockOffset { x: 0, y: 7, z: 0 },
        BlockOffset { x: 0, y: 7, z: 1 },
        BlockOffset { x: 0, y: 7, z: 2 },
        BlockOffset { x: 1, y: 7, z: -2isize },
        BlockOffset { x: 1, y: 7, z: -1isize },
        BlockOffset { x: 1, y: 7, z: 0 },
        BlockOffset { x: 1, y: 7, z: 1 },
        BlockOffset { x: 1, y: 7, z: 2 },
        BlockOffset { x: 1, y: 7, z: 3 },
        BlockOffset { x: 2, y: 7, z: -1isize },
        BlockOffset { x: 2, y: 7, z: 0 },
        BlockOffset { x: 2, y: 7, z: 1 },
        BlockOffset { x: 3, y: 7, z: 0 },
        BlockOffset { x: 3, y: 7, z: 1 },
        BlockOffset { x: -1isize, y: 8, z: 0 },
        BlockOffset { x: -1isize, y: 8, z: 1 },
        BlockOffset { x: 0, y: 8, z: 0 },
        BlockOffset { x: 0, y: 8, z: 1 },
        BlockOffset { x: 1, y: 8, z: 0 },
        BlockOffset { x: 1, y: 8, z: 1 },
        BlockOffset { x: 2, y: 8, z: 0 },
        BlockOffset { x: 2, y: 8, z: 1 },
    ]
}

/// Builds one quarter of the canopy offset table.
fn leaves_part_d() -> (r: Vec<BlockOffset>)
    ensures
        r@ == leaves_d_spec(),
        offsets_bounded(r@),
{
    let mut v: Vec<BlockOffset> = Vec::new();
    push_offset(&mut v, 3, 6, 1);
    push_offset(&mut v, 4, 6, -1);
    push_offset(&mut v, -2, 7, 0);
    push_offset(&mut v, -2, 7, 1);
    push_offset(&mut v, -1, 7, -1);
    push_offset(&mut v, -1, 7, 0);
    push_offset(&mut v, -1, 7, 1);
    push_offset(&mut v, 0, 7, -2);
    push_offset(&mut v, 0, 7, -1);
    push_offset(&mut v, 0, 7, 0);
    push_offset(&mut v, 0, 7, 1);
    push_offset(&mut v, 0, 7, 2);
    push_offset(&mut v, 1, 7, -2);
    push_offset(&mut v, 1, 7, -1);
    push_offset(&mut v, 1, 7, 0);
    push_offset(&mut v, 1, 7, 1);
    push_offset(&mut v, 1, 7, 2);
    push_offset(&mut v, 1, 7, 3);
    push_offset(&mut v, 2, 7, -1);
    push_offset(&mut v, 2, 7, 0);
    push_offset(&mut v, 2, 7, 1);
    push_offset(&mut v, 3, 7, 0);
    push_offset(&mut v, 3, 7, 1);
    push_offset(&mut v, -1, 8, 0);
    push_offset(&mut v, -1, 8, 1);
    push_offset(&mut v, 0, 8, 0);
    push_offset(&mut v, 0, 8, 1);
    push_offset(&mut v, 1, 8, 0);
    push_offset(&mut v, 1, 8, 1);
    push_offset(&mut v, 2, 8, 0);
    push_offset(&mut v, 2, 8, 1);
    proof {
        assert(v@ =~= leaves_d_spec());
    }
    v
}

/// The block offsets of a tree's canopy, relative to its origin.
pub open spec fn leaves_offsets_spec() -> Seq<BlockOffset> {
    leaves_a_spec() + leaves_b_spec() + leaves_c_spec() + leaves_d_spec()
}

/// The block offsets of a tree's canopy, relative to its origin.
pub fn leaves_offsets() -> (r: Vec<BlockOffset>)
    ensures
        r@ == leaves_offsets_spec(),
        offsets_bounded(r@),
{
    let mut v = leaves_part_a();
    let mut vb = leaves_part_b();
    let mut vc = leaves_part_c();
    let mut vd = leaves_part_d();
    v.append(&mut vb);
    v.append(&mut vc);
    v.append(&mut vd);
    proof {
        assert forall|k: int|
            0 <= k < v@.len() implies -(CHUNK_SIZE_X as int) <= (#[trigger] v@[k]).x
            <= CHUNK_SIZE_X && -(CHUNK_SIZE_Z as int) <= v@[k].z <= CHUNK_SIZE_Z by {
            if k < leaves_a_spec().len() {
                assert(v@[k] == leaves_a_spec()[k]);
            } else if k < leaves_a_spec().len() + leaves_b_spec().len() {
                assert(v@[k] == leaves_b_spec()[k - leaves_a_spec().len()]);
            } else if k < leaves_a_spec().len() + leaves_b_spec().len() + leaves_c_spec().len() {
                assert(v@[k] == leaves_c_spec()[k - leaves_a_spec().len()
                    - leaves_b_spec().len()]);
            } else {
                assert(v@[k] == leaves_d_spec()[k - leaves_a_spec().len() - leaves_b_spec().len()
                    - leaves_c_spec().len()]);
            }
        }
    }
    v
}

/// The block offsets of a tree's trunk, relative to its origin.
pub open spec fn trunk_offsets_spec() -> Seq<BlockOffset> {
    seq![
        BlockOffset { x: 0, y: 0, z: 0 },
        BlockOffset { x: 0, y: 0, z: 1 },
        BlockOffset { x: 1, y: 0, z: 0 },
        BlockOffset { x: 0, y: 1, z: 1 },
        BlockOffset { x: 1, y: 1, z: 0 },
        BlockOffset { x: 0, y: 2, z: 0 },
        BlockOffset { x: 0, y: 2, z: 1 },
        BlockOffset { x: 1, y: 2, z: 1 },
        BlockOffset { x: 0, y: 3, z: 0 },
        BlockOffset { x: 0, y: 3, z: 1 },
        BlockOffset { x: 1, y: 3, z: 0 },
        BlockOffset { x: 0, y: 4, z: 0 },
        BlockOffset { x: 0, y: 4, z: 1 },
        BlockOffset { x: 1, y: 4, z: 0 },
        BlockOffset { x: 1, y: 4, z: 1 },
        BlockOffset { x: 0, y: 5, z: 0 },
        BlockOffset { x: 0, y: 5, z: 1 },
        BlockOffset { x: 1, y: 5, z: 0 },
        BlockOffset { x: 1, y: 5, z: 1 },
    ]
}

/// The block offsets of a tree's trunk, relative to its origin.
pub fn trunk_offsets() -> (r: Vec<BlockOffset>)
    ensures
        r@ == trunk_offsets_spec(),
        offsets_bounded(r@),
{
    let mut v: Vec<BlockOffset> = Vec::new();
    push_offset(&mut v, 0, 0, 0);
    push_offset(&mut v, 0, 0, 1);
    push_offset(&mut v, 1, 0, 0);
    push_offset(&mut v, 0, 1, 1);
    push_offset(&mut v, 1, 1, 0);
    push_offset(&mut v, 0, 2, 0);
    push_offset(&mut v, 0, 2, 1);
    push_offset(&mut v, 1, 2, 1);
    push_offset(&mut v, 0, 3, 0);
    push_offset(&mut v, 0, 3, 1);
    push_offset(&mut v, 1, 3, 0);
    push_offset(&mut v, 0, 4, 0);
    push_offset(&mut v, 0, 4, 1);
    push_offset(&mut v, 1, 4, 0);
    push_offset(&mut v, 1, 4, 1);
    push_offset(&mut v, 0, 5, 0);
    push_offset(&mut v, 0, 5, 1);
    push_offset(&mut v, 1, 5, 0);
    push_offset(&mut v, 1, 5, 1);
    proof {
        assert(v@ =~= trunk_offsets_spec());
    }
    v
}

/// Grows trees at the columns its placement field picks.
pub struct Trees<P: TreePlacement> {
    pub placement: P,
}

impl<P: TreePlacement> Trees<P> {
    pub fn new(placement: P) -> (r: Self)
        ensures
            r == (Trees { placement }),
    {
        Trees { placement }
    }
}

/// The origin a tree at column (cx, cz) is rooted at: the column's
/// ground level, where the ground turns to air.
pub open spec fn tree_origin(t: Seq<BlockID>, position: ChunkPos, cx: usize, cz: usize) -> LocalBlockPos {
    LocalBlockPos {
        x: cx,
        y: spec_air_start(t, cx as int, cz as int) as usize,
        z: cz,
        chunk: position,
    }
}

/// The cell array after one tree is planted at column (cx, cz): the
/// canopy offsets are filled with leaves, then the trunk offsets with
/// trunk blocks, both rooted at the column's ground level; a column
/// with no ground level (all solid) grows nothing.
pub open spec fn plant_tree_terrain(
    t: Seq<BlockID>,
    position: ChunkPos,
    cx: usize,
    cz: usize,
) -> Seq<BlockID> {
    if spec_air_start(t, cx as int, cz as int) < 0 {
        t
    } else {
        let origin = tree_origin(t, position, cx, cz);
        fill_terrain_upto(
            origin,
            trunk_offsets_spec(),
            TRUNK_BLOCK,
            fill_terrain_upto(
                origin,
                leaves_offsets_spec(),
                LEAVES_BLOCK,
                t,
                leaves_offsets_spec().len() as int,
            ),
            trunk_offsets_spec().len() as int,
        )
    }
}

/// The waitlist after one tree is planted at column (cx, cz): first
/// the canopy's out-of-chunk writes, then the trunk's, merged in.
pub open spec fn plant_tree_waitlist(
    t: Seq<BlockID>,
    w: Seq<WaitlistEntry>,
    position: ChunkPos,
    cx: usize,
    cz: usize,
) -> Seq<WaitlistEntry> {
    if spec_air_start(t, cx as int, cz as int) < 0 {
        w
    } else {
        let origin = tree_origin(t, position, cx, cz);
        spec_merge(
            spec_merge(
                w,
                fill_waitlist_upto(
                    origin,
                    leaves_offsets_spec(),
                    LEAVES_BLOCK,
                    Seq::empty(),
                    leaves_offsets_spec().len() as int,
                ),
            ),
            fill_waitlist_upto(
                origin,
                trunk_offsets_spec(),
                TRUNK_BLOCK,
                Seq::empty(),
                trunk_offsets_spec().len() as int,
            ),
        )
    }
}

/// The cell array and waitlist after trees are planted at the first
/// `k` listed columns, in order.
pub open spec fn plant_state(
    t0: Seq<BlockID>,
    position: ChunkPos,
    columns: Seq<(usize, usize)>,
    k: int,
) -> (Seq<BlockID>, Seq<WaitlistEntry>)
    decreases k,
{
    if k <= 0 {
        (t0, Seq::empty())
    } else {
        let prev = plant_state(t0, position, columns, k - 1);
        (
            plant_tree_terrain(prev.0, position, columns[k - 1].0, columns[k - 1].1),
            plant_tree_waitlist(prev.0, prev.1, position, columns[k - 1].0, columns[k - 1].1),
        )
    }
}

impl<P: TreePlacement> Trees<P> {
    /// The columns of the chunk at `position` that the placement field
    /// picks as tree origins, in scan order. The picks are whatever
    /// the field answers; planting them is exact in the picked list.
    pub fn tree_columns(&self, position: ChunkPos) -> (r: Vec<(usize, usize)>)
        requires
            position.in_range(),
        ensures
            forall|j: int|
                0 <= j < r@.len() ==> (#[trigger] r@[j]).0 < CHUNK_SIZE_X && r@[j].1
                    < CHUNK_SIZE_Z,
    {
        let origin_block = position.origin();
        let mut tree_positions: Vec<(usize, usize)> = Vec::new();
        let mut x: usize = 0;
        while x < CHUNK_SIZE_X
            invariant
                x <= CHUNK_SIZE_X,
                position.in_range(),
                origin_block.x == CHUNK_SIZE_X as int * position.x,
                origin_block.z == CHUNK_SIZE_Z as int * position.z,
                forall|t: int|
                    0 <= t < tree_positions@.len() ==> (#[trigger] tree_positions@[t]).0
                        < CHUNK_SIZE_X && tree_positions@[t].1 < CHUNK_SIZE_Z,
            decreases CHUNK_SIZE_X - x,
        {
            let mut z: usize = 0;
            while z < CHUNK_SIZE_Z
                invariant
                    x < CHUNK_SIZE_X,
                    z <= CHUNK_SIZE_Z,
                    position.in_range(),
                    origin_block.x == CHUNK_SIZE_X as int * position.x,
                    origin_block.z == CHUNK_SIZE_Z as int * position.z,
                    forall|t: int|
                        0 <= t < tree_positions@.len() ==> (#[trigger] tree_positions@[t]).0
                            < CHUNK_SIZE_X && tree_positions@[t].1 < CHUNK_SIZE_Z,
                decreases CHUNK_SIZE_Z - z,
            {
                if self.placement.tree_at(
                    origin_block.x + x as isize,
                    origin_block.z + z as isize,
                ) {
                    tree_positions.push((x, z));
                }
                z = z + 1;
            }
            x = x + 1;
        }
        tree_positions
    }

    /// Plants one tree at each of the given columns, in order: where
    /// the column's ground turns to air, the canopy is filled with
    /// leaves and then the trunk with trunk blocks at that origin,
    /// writes beyond the chunk deferred into the returned waitlist;
    /// all-solid columns grow nothing. The result is exactly
    /// [`plant_state`] of the columns.
    pub fn plant_trees_at(
        &self,
        chunk_data: &mut ChunkData,
        columns: &Vec<(usize, usize)>,
    ) -> (r: FeatureWaitlist)
        requires
            old(chunk_data).wf(),
            old(chunk_data)@.position.in_range(),
            forall|j: int|
                0 <= j < columns@.len() ==> (#[trigger] columns@[j]).0 < CHUNK_SIZE_X
                    && columns@[j].1 < CHUNK_SIZE_Z,
        ensures
            final(chunk_data).wf(),
            final(chunk_data)@.position == old(chunk_data)@.position,
            final(chunk_data)@.skylightlevel == old(chunk_data)@.skylightlevel,
            final(chunk_data)@.terrain == plant_state(
                old(chunk_data)@.terrain,
                old(chunk_data)@.position,
                columns@,
                columns@.len() as int,
            ).0,
            r.wf(),
            r.view_spec() == plant_state(
                old(chunk_data)@.terrain,
                old(chunk_data)@.position,
                columns@,
                columns@.len() as int,
            ).1,
            forall|i: int|
                0 <= i < crate::CHUNK_VOLUME ==> ((#[trigger] final(chunk_data)@.terrain[i])
                    == old(chunk_data)@.terrain[i]
                    || final(chunk_data)@.terrain[i] == TRUNK_BLOCK
                    || final(chunk_data)@.terrain[i] == LEAVES_BLOCK),
            waitlist_writes_only(r.view_spec(), TRUNK_BLOCK, LEAVES_BLOCK),
    {
        let mut waitlist = FeatureWaitlist::new();
        let position = chunk_data.position();
        let leaves = leaves_offsets();
        let trunk = trunk_offsets();
        let mut t: usize = 0;
        let n = columns.len();
        proof {
            assert(plant_state(old(chunk_data)@.terrain, position, columns@, 0) == (
                old(chunk_data)@.terrain,
                Seq::<WaitlistEntry>::empty(),
            ));
        }
        while t < n
            invariant
                n == columns@.len(),
                t <= n,
                position == old(chunk_data)@.position,
                position.in_range(),
                old(chunk_data).wf(),
                chunk_data.wf(),
                chunk_data@.position == position,
                chunk_data@.skylightlevel == old(chunk_data)@.skylightlevel,
                chunk_data@.terrain == plant_state(
                    old(chunk_data)@.terrain,
                    position,
                    columns@,
                    t as int,
                ).0,
                waitlist.view_spec() == plant_state(
                    old(chunk_data)@.terrain,
                    position,
                    columns@,
                    t as int,
                ).1,
                forall|i: int|
                    0 <= i < crate::CHUNK_VOLUME ==> ((#[trigger] chunk_data@.terrain[i])
                        == old(chunk_data)@.terrain[i]
                        || chunk_data@.terrain[i] == TRUNK_BLOCK
                        || chunk_data@.terrain[i] == LEAVES_BLOCK),
                waitlist.wf(),
                waitlist_writes_only(waitlist.view_spec(), TRUNK_BLOCK, LEAVES_BLOCK),
                leaves@ == leaves_offsets_spec(),
                trunk@ == trunk_offsets_spec(),
                offsets_bounded(leaves@),
                offsets_bounded(trunk@),
                forall|j: int|
                    0 <= j < columns@.len() ==> (#[trigger] columns@[j]).0 < CHUNK_SIZE_X
                        && columns@[j].1 < CHUNK_SIZE_Z,
            decreases n - t,
        {
            let column = columns[t];
            let ghost mid0 = chunk_data@;
            let ghost wl0 = waitlist.view_spec();
            // Trees sprout where the ground turns to air.
            match chunk_data.get_air_start(column.0, column.1) {
                Some(air_start) => {
                    let origin = LocalBlockPos::new(column.0, air_start, column.1, position);
                    proof {
                        assert forall|yy: int| 0 <= yy < air_start implies mid0.terrain[
                            #[trigger] crate::chunk::flat_index(column.0 as int, yy, column.1 as int)
                        ] != 0 by {
                            assert(mid0.block_at(column.0 as int, yy, column.1 as int) != 0);
                        }
                        lemma_air_start_some(
                            mid0.terrain,
                            column.0 as int,
                            column.1 as int,
                            air_start as int,
                        );
                        assert(origin == tree_origin(mid0.terrain, position, column.0, column.1));
                        lemma_bounded_offsets_fit(origin, leaves@);
                        lemma_bounded_offsets_fit(origin, trunk@);
                    }
                    let canopy = self.fill(chunk_data, origin, &leaves, LEAVES_BLOCK);
                    proof {
                        lemma_fill_terrain_changes(
                            origin,
                            leaves@,
                            LEAVES_BLOCK,
                            mid0.terrain,
                            leaves@.len() as int,
                        );
                        lemma_fill_waitlist_writes_only(
                            origin,
                            leaves@,
                            LEAVES_BLOCK,
                            Seq::empty(),
                            leaves@.len() as int,
                            TRUNK_BLOCK,
                            LEAVES_BLOCK,
                        );
                    }
                    waitlist.merge(canopy);
                    proof {
                        lemma_merge_writes_only(
                            wl0,
                            fill_waitlist_upto(
                                origin,
                                leaves@,
                                LEAVES_BLOCK,
                                Seq::empty(),
                                leaves@.len() as int,
                            ),
                            TRUNK_BLOCK,
                            LEAVES_BLOCK,
                        );
                    }
                    let ghost mid1 = chunk_data@;
                    let ghost wl1 = waitlist.view_spec();
                    let stem = self.fill(chunk_data, origin, &trunk, TRUNK_BLOCK);
                    proof {
                        lemma_fill_terrain_changes(
                            origin,
                            trunk@,
                            TRUNK_BLOCK,
                            mid1.terrain,
                            trunk@.len() as int,
                        );
                        lemma_fill_waitlist_writes_only(
                            origin,
                            trunk@,
                            TRUNK_BLOCK,
                            Seq::empty(),
                            trunk@.len() as int,
                            TRUNK_BLOCK,
                            LEAVES_BLOCK,
                        );
                    }
                    waitlist.merge(stem);
                    proof {
                        lemma_merge_writes_only(
                            wl1,
                            fill_waitlist_upto(
                                origin,
                                trunk@,
                                TRUNK_BLOCK,
                                Seq::empty(),
                                trunk@.len() as int,
                            ),
                            TRUNK_BLOCK,
                            LEAVES_BLOCK,
                        );
                        assert(chunk_data@.terrain == plant_tree_terrain(
                            mid0.terrain,
                            position,
                            column.0,
                            column.1,
                        ));
                        assert(waitlist.view_spec() == plant_tree_waitlist(
                            mid0.terrain,
                            wl0,
                            position,
                            column.0,
                            column.1,
                        ));
                        assert(chunk_data@.terrain == plant_state(
                            old(chunk_data)@.terrain,
                            position,
                            columns@,
                            t + 1,
                        ).0);
                        assert(waitlist.view_spec() == plant_state(
                            old(chunk_data)@.terrain,
                            position,
                            columns@,
                            t + 1,
                        ).1);
                    }
                },
                None => {
                    proof {
                        assert forall|yy: int| 0 <= yy < crate::CHUNK_SIZE_Y implies mid0.terrain[
                            #[trigger] crate::chunk::flat_index(column.0 as int, yy, column.1 as int)
                        ] != 0 by {
                            assert(mid0.block_at(column.0 as int, yy, column.1 as int) != 0);
                        }
                        lemma_air_start_none(mid0.terrain, column.0 as int, column.1 as int);
                        assert(chunk_data@.terrain == plant_state(
                            old(chunk_data)@.terrain,
                            position,
                            columns@,
                            t + 1,
                        ).0);
                        assert(waitlist.view_spec() == plant_state(
                            old(chunk_data)@.terrain,
                            position,
                            columns@,
                            t + 1,
                        ).1);
                    }
                },
            }
            t = t + 1;
        }
        waitlist
    }

    /// Plants a tree at every column the placement field picks whose
    /// ground turns to air somewhere. Whatever columns the field
    /// picks, the result is exactly a planting of some in-bounds
    /// column list: only trunk and leaves blocks are written, within
    /// the chunk and into the waitlist alike, and the light levels
    /// stay untouched.
    pub fn plant_trees(&self, chunk_data: &mut ChunkData) -> (r: FeatureWaitlist)
        requires
            old(chunk_data).wf(),
            old(chunk_data)@.position.in_range(),
        ensures
            final(chunk_data).wf(),
            final(chunk_data)@.position == old(chunk_data)@.position,
            final(chunk_data)@.skylightlevel == old(chunk_data)@.skylightlevel,
            forall|i: int|
                0 <= i < crate::CHUNK_VOLUME ==> ((#[trigger] final(chunk_data)@.terrain[i])
                    == old(chunk_data)@.terrain[i]
                    || final(chunk_data)@.terrain[i] == TRUNK_BLOCK
                    || final(chunk_data)@.terrain[i] == LEAVES_BLOCK),
            r.wf(),
            waitlist_writes_only(r.view_spec(), TRUNK_BLOCK, LEAVES_BLOCK),
            exists|columns: Seq<(usize, usize)>|
                (forall|j: int|
                    0 <= j < columns.len() ==> (#[trigger] columns[j]).0 < CHUNK_SIZE_X
                        && columns[j].1 < CHUNK_SIZE_Z) && final(chunk_data)@.terrain == (
                #[trigger] plant_state(
                    old(chunk_data)@.terrain,
                    old(chunk_data)@.position,
                    columns,
                    columns.len() as int,
                )).0 && r.view_spec() == plant_state(
                    old(chunk_data)@.terrain,
                    old(chunk_data)@.position,
                    columns,
                    columns.len() as int,
                ).1,
    {
        let position = chunk_data.position();
        let columns = self.tree_columns(position);
        let planted = self.plant_trees_at(chunk_data, &columns);
        proof {
            assert(final(chunk_data)@.terrain == plant_state(
                old(chunk_data)@.terrain,
                old(chunk_data)@.position,
                columns@,
                columns@.len() as int,
            ).0);
        }
        planted
    }
}

/// Offsets bounded by one chunk's reach keep the global coordinates of
/// any block of an in-range chunk within the machine integer range.
proof fn lemma_bounded_offsets_fit(origin: LocalBlockPos, offsets: Seq<BlockOffset>)
    requires
        origin.wf(),
        origin.chunk.in_range(),
        offsets_bounded(offsets),
    ensures
        forall|k: int|
            0 <= k < offsets.len() ==> isize::MIN <= origin.global_coords().0 + (
            #[trigger] offsets[k]).x <= isize::MAX && isize::MIN <= origin.global_coords().2
                + offsets[k].z <= isize::MAX,
{
}

impl<P: TreePlacement> Feature for Trees<P> {
    /// Plants a tree at every column the placement field picks whose
    /// ground turns to air.
    fn add_to_chunk(&self, chunk_data: &mut ChunkData) -> (r: FeatureWaitlist) {
        self.plant_trees(chunk_data)
    }
}

} // verus!
