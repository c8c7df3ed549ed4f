//! Features are decorations placed during generation, like trees. A
//! feature writes blocks relative to an origin; writes that would land
//! outside the chunk being generated are redirected into a waitlist
//! keyed by the destination chunk, to be applied when that chunk
//! exists.

use vstd::prelude::*;

verus! {

use crate::{BlockID, CHUNK_SIZE_X, CHUNK_SIZE_Y, CHUNK_SIZE_Z};
use crate::chunk::{flat_index, ChunkData};
use crate::positions::{chunk_coord, BlockOffset, ChunkPos, LocalBlockPos};

/// One pending block write: the position it targets and the block type
/// to store there.
pub type BlockWrite = (LocalBlockPos, BlockID);

/// One waitlist entry as mathematics: the destination chunk and its
/// pending writes in arrival order.
pub type WaitlistEntry = (ChunkPos, Seq<BlockWrite>);

/// Blocks that features wanted to place but could not, because their
/// positions lie in a chunk other than the one being generated. Writes
/// are grouped by destination chunk, each group in arrival order.
pub struct FeatureWaitlist {
    pub chunks: Vec<(ChunkPos, Vec<BlockWrite>)>,
}

/// The index of the first entry for `p`, or -1 if there is none.
pub open spec fn find_entry(s: Seq<WaitlistEntry>, p: ChunkPos) -> int
    decreases s.len(),
{
    if s.len() == 0 {
        -1
    } else if s[0].0 == p {
        0
    } else {
        let r = find_entry(s.drop_first(), p);
        if r < 0 {
            -1
        } else {
            r + 1
        }
    }
}

/// The pending writes for chunk `p`, empty if there is no entry.
pub open spec fn writes_of(s: Seq<WaitlistEntry>, p: ChunkPos) -> Seq<BlockWrite> {
    let i = find_entry(s, p);
    if i >= 0 {
        s[i].1
    } else {
        Seq::empty()
    }
}

/// The waitlist with writes `ws` appended for chunk `p`: appended to
/// the existing entry for `p` if there is one, else as a new entry at
/// the end.
pub open spec fn waitlist_add(s: Seq<WaitlistEntry>, p: ChunkPos, ws: Seq<BlockWrite>) -> Seq<
    WaitlistEntry,
> {
    let i = find_entry(s, p);
    if i >= 0 {
        s.update(i, (p, s[i].1 + ws))
    } else {
        s.push((p, ws))
    }
}

/// The waitlist `s` with every entry of `o` merged into it, in order.
pub open spec fn spec_merge(s: Seq<WaitlistEntry>, o: Seq<WaitlistEntry>) -> Seq<WaitlistEntry>
    decreases o.len(),
{
    if o.len() == 0 {
        s
    } else {
        waitlist_add(spec_merge(s, o.drop_last()), o.last().0, o.last().1)
    }
}

/// If the first entry for `p` is at `i`, the entry search finds
/// exactly `i`.
pub(crate) proof fn lemma_find_entry_at(s: Seq<WaitlistEntry>, p: ChunkPos, i: int)
    requires
        0 <= i < s.len(),
        s[i].0 == p,
        forall|j: int| 0 <= j < i ==> (#[trigger] s[j]).0 != p,
    ensures
        find_entry(s, p) == i,
    decreases i,
{
    if i == 0 {
    } else {
        assert(s.drop_first()[i - 1] == s[i]);
        assert forall|j: int| 0 <= j < i - 1 implies (#[trigger] s.drop_first()[j]).0 != p by {
            assert(s.drop_first()[j] == s[j + 1]);
        }
        lemma_find_entry_at(s.drop_first(), p, i - 1);
    }
}

/// If no entry is for `p`, the entry search finds none.
pub(crate) proof fn lemma_find_entry_none(s: Seq<WaitlistEntry>, p: ChunkPos)
    requires
        forall|j: int| 0 <= j < s.len() ==> (#[trigger] s[j]).0 != p,
    ensures
        find_entry(s, p) == -1,
    decreases s.len(),
{
    if s.len() == 0 {
    } else {
        assert forall|j: int| 0 <= j < s.len() - 1 implies (#[trigger] s.drop_first()[j]).0
            != p by {
            assert(s.drop_first()[j] == s[j + 1]);
        }
        lemma_find_entry_none(s.drop_first(), p);
    }
}

/// The entry the search finds, if any, is an in-bounds entry for the
/// chunk searched for.
proof fn lemma_find_entry_bounds(s: Seq<WaitlistEntry>, p: ChunkPos)
    ensures
        find_entry(s, p) >= 0 ==> 0 <= find_entry(s, p) < s.len() && s[find_entry(s, p)].0 == p,
        find_entry(s, p) < s.len(),
    decreases s.len(),
{
    if s.len() == 0 {
    } else if s[0].0 == p {
    } else {
        lemma_find_entry_bounds(s.drop_first(), p);
        if find_entry(s, p) >= 0 {
            assert(s.drop_first()[find_entry(s.drop_first(), p)] == s[find_entry(s, p)]);
        }
    }
}

/// Replacing an entry's writes does not move any entry: the search
/// still finds the same indices.
proof fn lemma_find_entry_update(s: Seq<WaitlistEntry>, i: int, w: Seq<BlockWrite>, q: ChunkPos)
    requires
        0 <= i < s.len(),
    ensures
        find_entry(s.update(i, (s[i].0, w)), q) == find_entry(s, q),
    decreases s.len(),
{
    let t = s.update(i, (s[i].0, w));
    assert(t.len() == s.len());
    assert(t[0].0 == s[0].0);
    if s[0].0 == q {
    } else {
        if i == 0 {
            assert(t.drop_first() =~= s.drop_first());
        } else {
            assert(t.drop_first() =~= s.drop_first().update(i - 1, (s.drop_first()[i - 1].0, w)));
            lemma_find_entry_update(s.drop_first(), i - 1, w, q);
        }
    }
}

/// Appending a fresh entry leaves existing entries where they are; a
/// search for the new entry's chunk that found nothing before now
/// finds the appended entry.
proof fn lemma_find_entry_push(s: Seq<WaitlistEntry>, e: WaitlistEntry, q: ChunkPos)
    ensures
        find_entry(s.push(e), q) == (if find_entry(s, q) >= 0 {
            find_entry(s, q)
        } else if e.0 == q {
            s.len() as int
        } else {
            -1
        }),
    decreases s.len(),
{
    let t = s.push(e);
    if s.len() == 0 {
        assert(t.len() == 1);
        assert(t[0] == e);
        assert(find_entry(s, q) == -1);
        if e.0 != q {
            assert(t.drop_first() =~= Seq::<WaitlistEntry>::empty());
            assert(find_entry(Seq::<WaitlistEntry>::empty(), q) == -1);
            assert(find_entry(t, q) == -1);
        } else {
            assert(find_entry(t, q) == 0);
        }
    } else {
        assert(t[0] == s[0]);
        if s[0].0 == q {
            assert(find_entry(t, q) == 0 && find_entry(s, q) == 0);
        } else {
            assert(t.drop_first() =~= s.drop_first().push(e));
            lemma_find_entry_push(s.drop_first(), e, q);
            let fs = find_entry(s.drop_first(), q);
            let ft = find_entry(t.drop_first(), q);
            assert(find_entry(s, q) == (if fs < 0 {
                -1int
            } else {
                fs + 1
            }));
            assert(find_entry(t, q) == (if ft < 0 {
                -1int
            } else {
                ft + 1
            }));
            lemma_find_entry_bounds(s.drop_first(), q);
        }
    }
}

/// What one merge step does to the pending writes of each chunk:
/// appends `ws` for chunk `p` and changes nothing for other chunks.
proof fn lemma_waitlist_add_writes(
    s: Seq<WaitlistEntry>,
    p: ChunkPos,
    ws: Seq<BlockWrite>,
    q: ChunkPos,
)
    ensures
        q == p ==> writes_of(waitlist_add(s, p, ws), q) == writes_of(s, p) + ws,
        q != p ==> writes_of(waitlist_add(s, p, ws), q) == writes_of(s, q),
{
    let i = find_entry(s, p);
    lemma_find_entry_bounds(s, p);
    if i >= 0 {
        lemma_find_entry_update(s, i, s[i].1 + ws, q);
        lemma_find_entry_bounds(s, q);
    } else {
        lemma_find_entry_push(s, (p, ws), q);
        lemma_find_entry_bounds(s, q);
        if q == p {
            assert(writes_of(s, p) + ws =~= ws);
        }
    }
}

/// Appending writes for one chunk twice appends their concatenation
/// once.
proof fn lemma_waitlist_add_assoc(
    s: Seq<WaitlistEntry>,
    p: ChunkPos,
    a: Seq<BlockWrite>,
    b: Seq<BlockWrite>,
)
    ensures
        waitlist_add(waitlist_add(s, p, a), p, b) == waitlist_add(s, p, a + b),
{
    let i = find_entry(s, p);
    lemma_find_entry_bounds(s, p);
    if i >= 0 {
        let t = s.update(i, (p, s[i].1 + a));
        lemma_find_entry_update(s, i, s[i].1 + a, p);
        assert(t[i].1 == s[i].1 + a);
        assert(t.update(i, (p, (s[i].1 + a) + b)) =~= s.update(i, (p, s[i].1 + (a + b)))) by {
            assert((s[i].1 + a) + b =~= s[i].1 + (a + b));
        }
    } else {
        let t = s.push((p, a));
        lemma_find_entry_push(s, (p, a), p);
        assert(find_entry(t, p) == s.len());
        assert(t[s.len() as int].1 == a);
        assert(t.update(s.len() as int, (p, a + b)) =~= s.push((p, a + b)));
    }
}

/// Merging never drops a write: for any chunk, the writes pending
/// after a merge are the writes pending before, followed by the other
/// waitlist's writes for that chunk.
pub proof fn lemma_merge_concatenates(a: Seq<WaitlistEntry>, b: Seq<WaitlistEntry>, p: ChunkPos)
    requires
        forall|i: int, j: int| 0 <= i < j < b.len() ==> (#[trigger] b[i]).0 != (#[trigger] b[j]).0,
    ensures
        writes_of(spec_merge(a, b), p) == writes_of(a, p) + writes_of(b, p),
    decreases b.len(),
{
    if b.len() == 0 {
        lemma_find_entry_bounds(b, p);
        assert(writes_of(a, p) + writes_of(b, p) =~= writes_of(a, p));
    } else {
        let bp = b.drop_last();
        let q = b.last().0;
        let ws = b.last().1;
        assert forall|i: int, j: int| 0 <= i < j < bp.len() implies (#[trigger] bp[i]).0 != (
        #[trigger] bp[j]).0 by {
            assert(bp[i] == b[i] && bp[j] == b[j]);
        }
        lemma_merge_concatenates(a, bp, p);
        lemma_waitlist_add_writes(spec_merge(a, bp), q, ws, p);
        assert forall|j: int| 0 <= j < bp.len() implies (#[trigger] bp[j]).0 != q by {
            assert(bp[j] == b[j] && b.last() == b[b.len() - 1]);
        }
        lemma_find_entry_none(bp, q);
        if p == q {
            assert forall|j: int| 0 <= j < b.len() - 1 implies (#[trigger] b[j]).0 != q by {
                assert(bp[j] == b[j]);
            }
            lemma_find_entry_at(b, q, b.len() - 1);
            assert(writes_of(b, p) == ws);
            assert(writes_of(a, p) + writes_of(bp, p) =~= writes_of(a, p));
            assert(writes_of(a, p) + writes_of(b, p) =~= (writes_of(a, p) + writes_of(bp, p))
                + ws);
        } else {
            lemma_find_entry_bounds(b, p);
            lemma_find_entry_bounds(bp, p);
            if find_entry(b, p) >= 0 {
                let i = find_entry(b, p);
                assert(i < b.len() - 1);
                assert forall|j: int| 0 <= j < i implies (#[trigger] bp[j]).0 != p by {
                    lemma_find_entry_first(b, p, j);
                    assert(bp[j] == b[j]);
                }
                assert(bp[i] == b[i]);
                lemma_find_entry_at(bp, p, i);
                assert(writes_of(b, p) == writes_of(bp, p));
            } else {
                if find_entry(bp, p) >= 0 {
                    let i = find_entry(bp, p);
                    assert(b[i] == bp[i]);
                    lemma_find_entry_exists(b, p, i);
                }
                assert(writes_of(b, p) == Seq::<BlockWrite>::empty());
                assert(writes_of(bp, p) == Seq::<BlockWrite>::empty());
            }
        }
    }
}

/// No entry before the one the search finds is for the searched chunk.
proof fn lemma_find_entry_first(s: Seq<WaitlistEntry>, p: ChunkPos, j: int)
    requires
        0 <= j < find_entry(s, p),
    ensures
        s[j].0 != p,
    decreases j,
{
    lemma_find_entry_bounds(s, p);
    if j == 0 {
    } else {
        assert(s.drop_first()[j - 1] == s[j]);
        lemma_find_entry_first(s.drop_first(), p, j - 1);
    }
}

/// If some entry is for `p`, the search finds one.
proof fn lemma_find_entry_exists(s: Seq<WaitlistEntry>, p: ChunkPos, i: int)
    requires
        0 <= i < s.len(),
        s[i].0 == p,
    ensures
        find_entry(s, p) >= 0,
    decreases i,
{
    if s[0].0 == p {
    } else {
        assert(s.drop_first()[i - 1] == s[i]);
        lemma_find_entry_exists(s.drop_first(), p, i - 1);
    }
}

impl FeatureWaitlist {
    /// The waitlist as mathematics: destination chunks with their
    /// pending writes.
    pub open spec fn view_spec(self) -> Seq<WaitlistEntry> {
        Seq::new(self.chunks@.len(), |i: int| (self.chunks@[i].0, self.chunks@[i].1@))
    }

    /// Destination chunks are unique, no entry is empty, and every
    /// pending write is a well-formed position within its own
    /// destination chunk.
    pub open spec fn wf(self) -> bool {
        &&& forall|i: int, j: int|
            0 <= i < j < self.view_spec().len() ==> (#[trigger] self.view_spec()[i]).0 != (
            #[trigger] self.view_spec()[j]).0
        &&& forall|i: int|
            0 <= i < self.view_spec().len() ==> (#[trigger] self.view_spec()[i]).1.len() > 0
        &&& forall|i: int, k: int|
            0 <= i < self.view_spec().len() && 0 <= k < self.view_spec()[i].1.len() ==> (
            #[trigger] self.view_spec()[i].1[k]).0.wf() && self.view_spec()[i].1[k].0.chunk
                == self.view_spec()[i].0
    }

    /// Creates an empty waitlist.
    pub fn new() -> (r: Self)
        ensures
            r.wf(),
            r.view_spec() == Seq::<WaitlistEntry>::empty(),
    {
        let r = FeatureWaitlist { chunks: Vec::new() };
        proof {
            assert(r.view_spec() =~= Seq::<WaitlistEntry>::empty());
        }
        r
    }

    /// Appends one pending write for the chunk that owns `position`.
    pub fn add(&mut self, position: LocalBlockPos, block_id: BlockID)
        requires
            old(self).wf(),
            position.wf(),
        ensures
            final(self).wf(),
            final(self).view_spec() == waitlist_add(
                old(self).view_spec(),
                position.chunk,
                seq![(position, block_id)],
            ),
    {
        let ghost prev = self.view_spec();
        let mut i: usize = 0;
        let n = self.chunks.len();
        while i < n
            invariant
                *self == *old(self),
                prev == self.view_spec(),
                old(self).wf(),
                position.wf(),
                n == self.chunks@.len(),
                i <= n,
                forall|j: int| 0 <= j < i ==> (#[trigger] self.view_spec()[j]).0 != position.chunk,
            decreases n - i,
        {
            if self.chunks[i].0 == position.chunk {
                proof {
                    lemma_find_entry_at(prev, position.chunk, i as int);
                }
                let entry = &mut self.chunks[i];
                entry.1.push((position, block_id));
                proof {
                    assert(self.view_spec() =~~= waitlist_add(
                        prev,
                        position.chunk,
                        seq![(position, block_id)],
                    ));
                }
                return ;
            }
            i = i + 1;
        }
        proof {
            lemma_find_entry_none(prev, position.chunk);
        }
        let mut writes: Vec<BlockWrite> = Vec::new();
        writes.push((position, block_id));
        self.chunks.push((position.chunk, writes));
        proof {
            assert(self.view_spec() =~~= waitlist_add(
                prev,
                position.chunk,
                seq![(position, block_id)],
            ));
        }
    }

    /// Merges another waitlist into this one: entries for a chunk
    /// already present have their write lists appended, without
    /// dropping any write; entries for new chunks are added at the
    /// end.
    pub fn merge(&mut self, other: FeatureWaitlist)
        requires
            old(self).wf(),
            other.wf(),
        ensures
            final(self).wf(),
            final(self).view_spec() == spec_merge(old(self).view_spec(), other.view_spec()),
    {
        let mut oi: usize = 0;
        let on = other.chunks.len();
        while oi < on
            invariant
                old(self).wf(),
                other.wf(),
                on == other.chunks@.len(),
                oi <= on,
                self.wf(),
                self.view_spec() == spec_merge(
                    old(self).view_spec(),
                    other.view_spec().take(oi as int),
                ),
            decreases on - oi,
        {
            let ghost mid = self.view_spec();
            let entry_chunk = other.chunks[oi].0;
            let ghost ws = other.view_spec()[oi as int].1;
            let m = other.chunks[oi].1.len();
            let mut k: usize = 0;
            while k < m
                invariant
                    old(self).wf(),
                    other.wf(),
                    on == other.chunks@.len(),
                    oi < on,
                    mid == spec_merge(old(self).view_spec(), other.view_spec().take(oi as int)),
                    entry_chunk == other.view_spec()[oi as int].0,
                    ws == other.view_spec()[oi as int].1,
                    m == ws.len(),
                    k <= m,
                    self.wf(),
                    self.view_spec() == spec_merge_partial(mid, entry_chunk, ws, k as int),
                decreases m - k,
            {
                let write = other.chunks[oi].1[k];
                proof {
                    assert(other.view_spec()[oi as int].1[k as int] == write);
                    assert(write.0.wf() && write.0.chunk == entry_chunk);
                }
                self.add(write.0, write.1);
                k = k + 1;
            }
            proof {
                lemma_merge_partial_full(mid, entry_chunk, ws);
                assert(other.view_spec().take(oi + 1).drop_last() =~= other.view_spec().take(
                    oi as int,
                ));
                assert(other.view_spec().take(oi + 1).last() == other.view_spec()[oi as int]);
            }
            oi = oi + 1;
        }
        proof {
            assert(other.view_spec().take(on as int) =~= other.view_spec());
        }
    }
}

/// The waitlist after the first `k` writes of one entry have been
/// appended one at a time.
spec fn spec_merge_partial(
    s: Seq<WaitlistEntry>,
    p: ChunkPos,
    ws: Seq<BlockWrite>,
    k: int,
) -> Seq<WaitlistEntry>
    decreases k,
{
    if k <= 0 {
        s
    } else {
        waitlist_add(spec_merge_partial(s, p, ws, k - 1), p, seq![ws[k - 1]])
    }
}

/// Appending a nonempty entry's writes one at a time appends them all:
/// the partial merge of the whole write list equals one bulk merge
/// step.
proof fn lemma_merge_partial_full(s: Seq<WaitlistEntry>, p: ChunkPos, ws: Seq<BlockWrite>)
    requires
        ws.len() >= 1,
    ensures
        spec_merge_partial(s, p, ws, ws.len() as int) == waitlist_add(s, p, ws),
{
    lemma_merge_partial_prefix(s, p, ws, ws.len() as int);
    assert(ws.take(ws.len() as int) =~= ws);
}

/// The partial merge of the first `k` writes, `k` at least one, equals
/// one bulk step that appends exactly those writes.
proof fn lemma_merge_partial_prefix(s: Seq<WaitlistEntry>, p: ChunkPos, ws: Seq<BlockWrite>, k: int)
    requires
        1 <= k <= ws.len(),
    ensures
        spec_merge_partial(s, p, ws, k) == waitlist_add(s, p, ws.take(k)),
    decreases k,
{
    if k == 1 {
        assert(spec_merge_partial(s, p, ws, 0) == s);
        assert(spec_merge_partial(s, p, ws, 1) == waitlist_add(s, p, seq![ws[0]]));
        assert(ws.take(1) =~= seq![ws[0]]);
    } else {
        lemma_merge_partial_prefix(s, p, ws, k - 1);
        lemma_waitlist_add_assoc(s, p, ws.take(k - 1), seq![ws[k - 1]]);
        assert(ws.take(k - 1) + seq![ws[k - 1]] =~= ws.take(k));
    }
}

/// The waitlist with the entry for chunk `p` removed, if there is
/// one.
pub open spec fn waitlist_remove(s: Seq<WaitlistEntry>, p: ChunkPos) -> Seq<WaitlistEntry> {
    let i = find_entry(s, p);
    if i >= 0 {
        s.remove(i)
    } else {
        s
    }
}

/// A chunk's cell array after a list of pending writes has been
/// applied to it, in order: later writes to the same cell win.
pub open spec fn apply_writes(t: Seq<BlockID>, ws: Seq<BlockWrite>) -> Seq<BlockID>
    decreases ws.len(),
{
    if ws.len() == 0 {
        t
    } else {
        apply_writes(t, ws.drop_last()).update(
            flat_index(
                ws.last().0.x as int,
                ws.last().0.y as int,
                ws.last().0.z as int,
            ),
            ws.last().1,
        )
    }
}

/// Removing one entry keeps a waitlist well-formed.
pub(crate) proof fn lemma_waitlist_remove_wf(w0: FeatureWaitlist, w1: FeatureWaitlist, i: int)
    requires
        w0.wf(),
        0 <= i < w0.view_spec().len(),
        w1.view_spec() == w0.view_spec().remove(i),
    ensures
        w1.wf(),
{
    let s0 = w0.view_spec();
    let s1 = w1.view_spec();
    assert forall|j: int| 0 <= j < s1.len() implies #[trigger] s1[j] == (if j < i {
        s0[j]
    } else {
        s0[j + 1]
    }) by {
        assert(s0.remove(i)[j] == (if j < i {
            s0[j]
        } else {
            s0[j + 1]
        }));
    }
}

/// Whether the block at `origin` offset by `o` still lies within
/// `origin`'s own chunk.
pub open spec fn fill_in_chunk(origin: LocalBlockPos, o: BlockOffset) -> bool {
    &&& 0 <= origin.x + o.x < CHUNK_SIZE_X
    &&& 0 <= origin.y + o.y < CHUNK_SIZE_Y
    &&& 0 <= origin.z + o.z < CHUNK_SIZE_Z
}

/// The local position, in whatever chunk owns it, of the block at
/// `origin` offset by `o`. Meaningful when the resulting y level stays
/// within the world.
pub open spec fn fill_target(origin: LocalBlockPos, o: BlockOffset) -> LocalBlockPos {
    let gx = origin.global_coords().0 + o.x;
    let gy = origin.global_coords().1 + o.y;
    let gz = origin.global_coords().2 + o.z;
    LocalBlockPos {
        x: (gx % (CHUNK_SIZE_X as int)) as usize,
        y: gy as usize,
        z: (gz % (CHUNK_SIZE_Z as int)) as usize,
        chunk: ChunkPos { x: chunk_coord(gx) as isize, z: chunk_coord(gz) as isize },
    }
}

/// The chunk's cell array after the first `k` offsets of a feature
/// have been written: offsets that stay inside the chunk update their
/// cell, all others leave it unchanged.
pub open spec fn fill_terrain_upto(
    origin: LocalBlockPos,
    offsets: Seq<BlockOffset>,
    id: BlockID,
    t0: Seq<BlockID>,
    k: int,
) -> Seq<BlockID>
    decreases k,
{
    if k <= 0 {
        t0
    } else {
        let t = fill_terrain_upto(origin, offsets, id, t0, k - 1);
        let o = offsets[k - 1];
        if fill_in_chunk(origin, o) {
            t.update(flat_index(origin.x + o.x, origin.y + o.y, origin.z + o.z), id)
        } else {
            t
        }
    }
}

/// The waitlist after the first `k` offsets of a feature have been
/// written: offsets that leave the chunk sideways are deferred for
/// their destination chunk; offsets that leave the world height range
/// are dropped.
pub open spec fn fill_waitlist_upto(
    origin: LocalBlockPos,
    offsets: Seq<BlockOffset>,
    id: BlockID,
    w0: Seq<WaitlistEntry>,
    k: int,
) -> Seq<WaitlistEntry>
    decreases k,
{
    if k <= 0 {
        w0
    } else {
        let w = fill_waitlist_upto(origin, offsets, id, w0, k - 1);
        let o = offsets[k - 1];
        if !fill_in_chunk(origin, o) && 0 <= origin.y + o.y < CHUNK_SIZE_Y {
            waitlist_add(w, fill_target(origin, o).chunk, seq![(fill_target(origin, o), id)])
        } else {
            w
        }
    }
}

/// A decoration placed during generation, like a tree.
pub trait Feature {
    /// Adds this feature to a chunk, returning the writes that fell
    /// outside of it. Features place blocks; the light levels are
    /// generator-written storage and stay untouched.
    fn add_to_chunk(&self, chunk_data: &mut ChunkData) -> (r: FeatureWaitlist)
        requires
            old(chunk_data).wf(),
            old(chunk_data)@.position.in_range(),
        ensures
            final(chunk_data).wf(),
            final(chunk_data)@.position == old(chunk_data)@.position,
            final(chunk_data)@.skylightlevel == old(chunk_data)@.skylightlevel,
            r.wf(),
    ;

    /// Fills the blocks at `offsets` relative to `origin` with
    /// `block_id`. Writes within the chunk land immediately; writes
    /// into another chunk are deferred into the returned waitlist;
    /// writes outside the world height range are dropped.
    fn fill(
        &self,
        chunk_data: &mut ChunkData,
        origin: LocalBlockPos,
        offsets: &Vec<BlockOffset>,
        block_id: BlockID,
    ) -> (r: FeatureWaitlist)
        requires
            old(chunk_data).wf(),
            origin.wf(),
            origin.chunk == old(chunk_data)@.position,
            origin.chunk.in_range(),
            forall|k: int|
                0 <= k < offsets@.len() ==> isize::MIN <= origin.global_coords().0 + (
                #[trigger] offsets@[k]).x <= isize::MAX && isize::MIN <= origin.global_coords().2
                    + offsets@[k].z <= isize::MAX,
        ensures
            final(chunk_data).wf(),
            final(chunk_data)@.position == old(chunk_data)@.position,
            final(chunk_data)@.skylightlevel == old(chunk_data)@.skylightlevel,
            final(chunk_data)@.terrain == fill_terrain_upto(
                origin,
                offsets@,
                block_id,
                old(chunk_data)@.terrain,
                offsets@.len() as int,
            ),
            r.wf(),
            r.view_spec() == fill_waitlist_upto(
                origin,
                offsets@,
                block_id,
                Seq::empty(),
                offsets@.len() as int,
            ),
    {
        let mut waitlist = FeatureWaitlist::new();
        let mut k: usize = 0;
        let n = offsets.len();
        while k < n
            invariant
                origin.wf(),
                origin.chunk == old(chunk_data)@.position,
                origin.chunk.in_range(),
                n == offsets@.len(),
                forall|j: int|
                    0 <= j < offsets@.len() ==> isize::MIN <= origin.global_coords().0 + (
                    #[trigger] offsets@[j]).x <= isize::MAX && isize::MIN
                        <= origin.global_coords().2 + offsets@[j].z <= isize::MAX,
                k <= n,
                chunk_data.wf(),
                chunk_data@.position == old(chunk_data)@.position,
                chunk_data@.skylightlevel == old(chunk_data)@.skylightlevel,
                chunk_data@.terrain == fill_terrain_upto(
                    origin,
                    offsets@,
                    block_id,
                    old(chunk_data)@.terrain,
                    k as int,
                ),
                waitlist.wf(),
                waitlist.view_spec() == fill_waitlist_upto(
                    origin,
                    offsets@,
                    block_id,
                    Seq::empty(),
                    k as int,
                ),
            decreases n - k,
        {
            let o = offsets[k];
            match origin.offset(o) {
                Ok(position) => {
                    chunk_data.set(position, block_id);
                },
                Err(_) => {
                    // That position is outside of this chunk; defer it
                    // for the chunk that owns it, unless it leaves the
                    // world entirely.
                    match origin.offset_global(o) {
                        Ok(global_position) => {
                            let outside_position = global_position.to_local();
                            proof {
                                assert(outside_position == fill_target(origin, o));
                            }
                            waitlist.add(outside_position, block_id);
                        },
                        Err(_) => {},
                    }
                },
            }
            k = k + 1;
        }
        waitlist
    }
}

/// Removing one chunk's entry leaves every other chunk's pending
/// writes untouched, and leaves nothing pending for the removed chunk.
pub proof fn lemma_remove_entry_effects(s: Seq<WaitlistEntry>, p: ChunkPos, q: ChunkPos)
    requires
        forall|i: int, j: int| 0 <= i < j < s.len() ==> (#[trigger] s[i]).0 != (#[trigger] s[j]).0,
    ensures
        q != p ==> writes_of(waitlist_remove(s, p), q) == writes_of(s, q),
        find_entry(waitlist_remove(s, p), p) == -1,
{
    let i = find_entry(s, p);
    lemma_find_entry_bounds(s, p);
    if i >= 0 {
        let t = s.remove(i);
        assert forall|j: int| 0 <= j < t.len() implies #[trigger] t[j] == (if j < i {
            s[j]
        } else {
            s[j + 1]
        }) by {
            assert(s.remove(i)[j] == (if j < i {
                s[j]
            } else {
                s[j + 1]
            }));
        }
        assert forall|j: int| 0 <= j < t.len() implies (#[trigger] t[j]).0 != p by {
            if j < i {
                lemma_find_entry_first(s, p, j);
            } else {
                assert(s[i].0 != s[j + 1].0);
            }
        }
        lemma_find_entry_none(t, p);
        if q != p {
            let jq = find_entry(s, q);
            lemma_find_entry_bounds(s, q);
            if jq >= 0 {
                assert(jq != i);
                let j2: int = if jq < i {
                    jq
                } else {
                    jq - 1
                };
                assert(t[j2] == s[jq]);
                assert forall|k: int| 0 <= k < j2 implies (#[trigger] t[k]).0 != q by {
                    if k < i {
                        lemma_find_entry_first(s, q, k);
                    } else {
                        lemma_find_entry_first(s, q, k + 1);
                    }
                }
                lemma_find_entry_at(t, q, j2);
            } else {
                assert forall|j: int| 0 <= j < t.len() implies (#[trigger] t[j]).0 != q by {
                    if t[j].0 == q {
                        if j < i {
                            lemma_find_entry_exists(s, q, j);
                        } else {
                            lemma_find_entry_exists(s, q, j + 1);
                        }
                    }
                }
                lemma_find_entry_none(t, q);
            }
        }
    }
}

/// Where no entry is empty, a chunk has no pending entry exactly when
/// it has no pending writes.
pub proof fn lemma_writes_iff_entry(s: Seq<WaitlistEntry>, p: ChunkPos)
    requires
        forall|i: int| 0 <= i < s.len() ==> (#[trigger] s[i]).1.len() > 0,
    ensures
        (find_entry(s, p) == -1) <==> (writes_of(s, p) == Seq::<BlockWrite>::empty()),
{
    lemma_find_entry_bounds(s, p);
    if find_entry(s, p) >= 0 {
        assert(s[find_entry(s, p)].1.len() > 0);
    }
}

/// Every pending write in the waitlist stores one of the two given
/// block types.
pub open spec fn waitlist_writes_only(s: Seq<WaitlistEntry>, a: BlockID, b: BlockID) -> bool {
    forall|i: int, k: int|
        0 <= i < s.len() && 0 <= k < s[i].1.len() ==> ((#[trigger] s[i].1[k]).1 == a || s[i].1[k].1
            == b)
}

/// One bulk append keeps the waitlist's write values within the two
/// given block types.
proof fn lemma_waitlist_add_writes_only(
    s: Seq<WaitlistEntry>,
    p: ChunkPos,
    ws: Seq<BlockWrite>,
    a: BlockID,
    b: BlockID,
)
    requires
        waitlist_writes_only(s, a, b),
        forall|k: int| 0 <= k < ws.len() ==> ((#[trigger] ws[k]).1 == a || ws[k].1 == b),
    ensures
        waitlist_writes_only(waitlist_add(s, p, ws), a, b),
{
    let i = find_entry(s, p);
    lemma_find_entry_bounds(s, p);
    let t = waitlist_add(s, p, ws);
    assert forall|j: int, k: int|
        0 <= j < t.len() && 0 <= k < t[j].1.len() implies ((#[trigger] t[j].1[k]).1 == a
        || t[j].1[k].1 == b) by {
        if i >= 0 {
            if j == i {
                if k < s[i].1.len() {
                    assert(t[j].1[k] == s[i].1[k]);
                } else {
                    assert(t[j].1[k] == ws[k - s[i].1.len()]);
                }
            } else {
                assert(t[j] == s[j]);
            }
        } else {
            if j < s.len() {
                assert(t[j] == s[j]);
            } else {
                assert(t[j].1[k] == ws[k]);
            }
        }
    }
}

/// Merging keeps the waitlist's write values within the two given
/// block types.
pub proof fn lemma_merge_writes_only(
    s: Seq<WaitlistEntry>,
    o: Seq<WaitlistEntry>,
    a: BlockID,
    b: BlockID,
)
    requires
        waitlist_writes_only(s, a, b),
        waitlist_writes_only(o, a, b),
    ensures
        waitlist_writes_only(spec_merge(s, o), a, b),
    decreases o.len(),
{
    if o.len() == 0 {
    } else {
        let op = o.drop_last();
        assert forall|i: int, k: int|
            0 <= i < op.len() && 0 <= k < op[i].1.len() implies ((#[trigger] op[i].1[k]).1 == a
            || op[i].1[k].1 == b) by {
            assert(op[i] == o[i]);
        }
        lemma_merge_writes_only(s, op, a, b);
        assert forall|k: int|
            0 <= k < o.last().1.len() implies ((#[trigger] o.last().1[k]).1 == a || o.last().1[k].1
            == b) by {
            assert(o.last() == o[o.len() - 1]);
        }
        lemma_waitlist_add_writes_only(spec_merge(s, op), o.last().0, o.last().1, a, b);
    }
}

/// Filling writes only the one block type into the waitlist.
pub proof fn lemma_fill_waitlist_writes_only(
    origin: LocalBlockPos,
    offsets: Seq<BlockOffset>,
    id: BlockID,
    w0: Seq<WaitlistEntry>,
    k: int,
    a: BlockID,
    b: BlockID,
)
    requires
        waitlist_writes_only(w0, a, b),
        id == a || id == b,
    ensures
        waitlist_writes_only(fill_waitlist_upto(origin, offsets, id, w0, k), a, b),
    decreases k,
{
    if k <= 0 {
    } else {
        lemma_fill_waitlist_writes_only(origin, offsets, id, w0, k - 1, a, b);
        let w = fill_waitlist_upto(origin, offsets, id, w0, k - 1);
        let o = offsets[k - 1];
        if !fill_in_chunk(origin, o) && 0 <= origin.y + o.y < CHUNK_SIZE_Y {
            lemma_waitlist_add_writes_only(
                w,
                fill_target(origin, o).chunk,
                seq![(fill_target(origin, o), id)],
                a,
                b,
            );
        }
    }
}

/// Filling changes cells only to the one block type it writes.
pub proof fn lemma_fill_terrain_changes(
    origin: LocalBlockPos,
    offsets: Seq<BlockOffset>,
    id: BlockID,
    t0: Seq<BlockID>,
    k: int,
)
    requires
        t0.len() == crate::CHUNK_VOLUME,
    ensures
        fill_terrain_upto(origin, offsets, id, t0, k).len() == t0.len(),
        forall|i: int|
            0 <= i < t0.len() ==> (#[trigger] fill_terrain_upto(origin, offsets, id, t0, k)[i]
                == t0[i] || fill_terrain_upto(origin, offsets, id, t0, k)[i] == id),
    decreases k,
{
    if k <= 0 {
    } else {
        lemma_fill_terrain_changes(origin, offsets, id, t0, k - 1);
        let o = offsets[k - 1];
        if fill_in_chunk(origin, o) {
            crate::chunk::lemma_flat_index_bounds(
                origin.x + o.x,
                origin.y + o.y,
                origin.z + o.z,
            );
        }
    }
}

} // verus!
