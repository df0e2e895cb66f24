//! The chunked world: paletted sections stacked into chunks, chunks keyed
//! by their position, and the entities that live among them.

use crate::codec::{
    read_u16_be, read_u64_be, read_varint, spec_read_varint, spec_u64_be, BufReadError,
};
use crate::movement::{FixedVec3, MovePlayerError};
use crate::palette::{
    spec_wire_id_at, spec_wire_parts_ok, PalettedContainer,
};
use crate::position::{BlockPos, ChunkPos};
use vstd::prelude::*;

verus! {

/// Entries of a block section: sixteen cubed.
pub const SECTION_VOLUME: usize = 4096;

/// Entries of a biome section: four cubed.
pub const BIOME_SECTION_VOLUME: usize = 64;

/// A 16 by 16 by 16 block volume and its biomes.
pub struct ChunkSection {
    pub states: PalettedContainer,
    pub biomes: PalettedContainer,
}

impl ChunkSection {
    pub open spec fn wf(&self) -> bool {
        &&& self.states.wf()
        &&& self.states.spec_size() == SECTION_VOLUME as nat
        &&& self.biomes.wf()
        &&& self.biomes.spec_size() == BIOME_SECTION_VOLUME as nat
    }
}

/// A vertical column of sections.
pub struct Chunk {
    pub sections: Vec<ChunkSection>,
}

impl Chunk {
    pub open spec fn wf(&self, height: nat) -> bool {
        &&& self.sections.len() == height / 16
        &&& forall|i: int| 0 <= i < self.sections.len() ==> #[trigger] self.sections[i].wf()
    }
}

/// The index of the chunk at `pos` among `chunks`, if it is loaded.
pub open spec fn spec_chunk_index(chunks: Seq<(ChunkPos, Chunk)>, pos: ChunkPos, i: int) -> Option<
    int,
>
    decreases chunks.len() - i,
{
    if i < 0 || i >= chunks.len() {
        None
    } else if chunks[i].0 == pos {
        Some(i)
    } else {
        spec_chunk_index(chunks, pos, i + 1)
    }
}

/// Every loaded chunk, keyed by chunk position, with the view centre the
/// eviction radius is measured from.
pub struct ChunkStorage {
    pub view_center: ChunkPos,
    pub chunk_radius: u32,
    pub height: u32,
    pub min_y: i32,
    pub chunks: Vec<(ChunkPos, Chunk)>,
}

impl ChunkStorage {
    /// Chunk positions are unique, the height is whole sections, and every
    /// chunk matches it.
    pub open spec fn wf(&self) -> bool {
        &&& self.height % 16 == 0
        &&& self.height <= 4096
        &&& -2048 <= self.min_y <= 2048
        &&& forall|i: int, j: int| 0 <= i < j < self.chunks.len()
            ==> self.chunks[i].0 != self.chunks[j].0
        &&& forall|i: int| 0 <= i < self.chunks.len() ==> (#[trigger] self.chunks[i].1).wf(
            self.height as nat)
    }

    /// The loaded chunks.
    pub open spec fn spec_chunks(&self) -> Seq<(ChunkPos, Chunk)> {
        self.chunks@
    }

    /// An empty storage.
    pub fn new(chunk_radius: u32, height: u32, min_y: i32) -> (r: ChunkStorage)
        requires
            height % 16 == 0,
            height <= 4096,
            -2048 <= min_y <= 2048,
        ensures
            r.wf(),
            r.spec_chunks().len() == 0,
            r.height == height,
            r.min_y == min_y,
            r.chunk_radius == chunk_radius,
    {
        ChunkStorage {
            view_center: ChunkPos { x: 0, z: 0 },
            chunk_radius,
            height,
            min_y,
            chunks: Vec::new(),
        }
    }

    /// The index of the loaded chunk at `pos`, if any.
    fn find_chunk(&self, pos: &ChunkPos) -> (r: Option<usize>)
        ensures
            match r {
                Some(i) => spec_chunk_index(self.spec_chunks(), *pos, 0) == Some(i as int),
                None => spec_chunk_index(self.spec_chunks(), *pos, 0) is None,
            },
    {
        let mut i: usize = 0;
        while i < self.chunks.len()
            invariant
                i <= self.chunks.len(),
                spec_chunk_index(self.chunks@, *pos, 0) == spec_chunk_index(self.chunks@,
                    *pos, i as int),
            decreases self.chunks.len() - i,
        {
            if self.chunks[i].0.x == pos.x && self.chunks[i].0.z == pos.z {
                return Some(i);
            }
            i = i + 1;
        }
        None
    }

    /// The block-state id at `pos`: the world value where a chunk is
    /// loaded and the height holds the position, nothing otherwise.
    pub open spec fn spec_block_state(&self, pos: BlockPos) -> Option<u32> {
        let cpos = ChunkPos { x: (pos.x >> 4u32) as i32, z: (pos.z >> 4u32) as i32 };
        match spec_chunk_index(self.spec_chunks(), cpos, 0) {
            None => None,
            Some(ci) => {
                let rel_y = pos.y - self.min_y;
                if rel_y < 0 || rel_y >= self.height {
                    None
                } else {
                    let chunk = self.spec_chunks()[ci].1;
                    let section = chunk.sections[rel_y / 16];
                    Some(section.states.spec_id_at(self.spec_section_slot(pos)))
                }
            },
        }
    }

    /// Where `pos` falls inside its section: y, z, x, each within sixteen.
    pub open spec fn spec_section_slot(&self, pos: BlockPos) -> nat {
        ((((pos.y - self.min_y) % 16) * 256) + ((pos.z & 15) * 16) + (pos.x & 15)) as nat
    }

    /// Look a block up.
    pub fn get_block_state(&self, pos: &BlockPos) -> (r: Option<u32>)
        requires
            self.wf(),
        ensures
            r == self.spec_block_state(*pos),
    {
        let cpos = ChunkPos::from_block(pos);
        let ci = match self.find_chunk(&cpos) {
            Some(ci) => ci,
            None => {
                return None;
            },
        };
        if pos.y < self.min_y {
            return None;
        }
        let rel = (pos.y as i64) - (self.min_y as i64);
        if rel >= self.height as i64 {
            return None;
        }
        let rel_y = rel as u32;
        let section_index = (rel_y / 16) as usize;
        let slot = self.section_slot(pos);
        proof {
            lemma_chunk_index_in_range(self.chunks@, cpos, 0);
            assert(rel_y as int / 16 == (pos.y - self.min_y) / 16);
            lemma_section_in_range(rel_y as nat, self.height as nat);
            assert(self.chunks@[ci as int].1.wf(self.height as nat));
            assert(self.chunks@[ci as int].1.sections[rel_y as int / 16].wf());
        }
        let chunk = &self.chunks[ci].1;
        Some(chunk.sections[section_index].states.get(slot))
    }

    /// Where `pos` falls inside its section.
    fn section_slot(&self, pos: &BlockPos) -> (r: usize)
        requires
            self.wf(),
            self.min_y <= pos.y,
            pos.y - self.min_y < self.height,
        ensures
            r == self.spec_section_slot(*pos),
            r < 4096,
    {
        proof {
            let z = pos.z;
            let x = pos.x;
            assert(0 <= (z & 15) < 16 && 0 <= (x & 15) < 16) by (bit_vector);
        }
        let rel_y = ((pos.y as i64) - (self.min_y as i64)) as u32;
        let y_part = (rel_y % 16) as usize * 256;
        let z_part = ((pos.z & 15) as usize) * 16;
        let x_part = (pos.x & 15) as usize;
        proof {
            assert(rel_y as int % 16 == (pos.y - self.min_y) % 16);
        }
        y_part + z_part + x_part
    }

    /// Replace the block at `pos`, returning what stood there, or nothing
    /// when no loaded chunk holds the position.
    pub fn set_block_state(&mut self, pos: &BlockPos, state: u32) -> (r: Option<u32>)
        requires
            old(self).wf(),
            state < 0x8000,
        ensures
            final(self).wf(),
            r == old(self).spec_block_state(*pos),
            r is Some ==> final(self).spec_block_state(*pos) == Some(state),
            r is None ==> *final(self) == *old(self),
            final(self).height == old(self).height,
            final(self).min_y == old(self).min_y,
            final(self).view_center == old(self).view_center,
            final(self).chunk_radius == old(self).chunk_radius,
            final(self).spec_chunks().len() == old(self).spec_chunks().len(),
            forall|p: BlockPos| p != *pos ==> final(self).spec_block_state(p)
                == old(self).spec_block_state(p),
            forall|k: int, s: int| 0 <= k < old(self).chunks@.len() && 0 <= s < old(
                self).chunks@[k].1.sections@.len() && (#[trigger] old(
                self).chunks@[k].1.sections@[s]).states.tight()
                ==> final(self).chunks@[k].1.sections@[s].states.tight(),
    {
        let cpos = ChunkPos::from_block(pos);
        let ci = match self.find_chunk(&cpos) {
            Some(ci) => ci,
            None => {
                return None;
            },
        };
        if pos.y < self.min_y {
            return None;
        }
        let rel = (pos.y as i64) - (self.min_y as i64);
        if rel >= self.height as i64 {
            return None;
        }
        let rel_y = rel as u32;
        let section_index = (rel_y / 16) as usize;
        let slot = self.section_slot(pos);
        proof {
            lemma_chunk_index_in_range(self.chunks@, cpos, 0);
            assert(rel_y as int / 16 == (pos.y - self.min_y) / 16);
            lemma_section_in_range(rel_y as nat, self.height as nat);
            assert(self.chunks@[ci as int].1.wf(self.height as nat));
            assert(self.chunks@[ci as int].1.sections[rel_y as int / 16].wf());
        }
        let old_state = self.chunks[ci].1.sections[section_index].states.get(slot);

        let mut entry = self.chunks.remove(ci);
        let mut section = entry.1.sections.remove(section_index);
        section.states.set(slot, state);
        entry.1.sections.insert(section_index, section);
        self.chunks.insert(ci, entry);
        proof {
            assert(entry.1.sections@ =~= old(self).chunks@[ci as int].1.sections@.update(
                section_index as int, section));
            assert(self.chunks@ =~= old(self).chunks@.update(ci as int, entry));
            assert(self.chunks@.len() == old(self).chunks@.len());
            assert forall|k: int| 0 <= k < self.chunks@.len() && k != ci
                implies self.chunks@[k] == old(self).chunks@[k] by {}
            assert(self.chunks@[ci as int].0 == old(self).chunks@[ci as int].0);
            lemma_chunk_index_same(old(self).chunks@, self.chunks@, 0);
            assert(self.wf());
            assert forall|p: BlockPos| p != *pos implies self.spec_block_state(p)
                == old(self).spec_block_state(p) by {
                let pc = ChunkPos { x: (p.x >> 4u32) as i32, z: (p.z >> 4u32) as i32 };
                lemma_chunk_index_same(old(self).chunks@, self.chunks@, 0);
                if spec_chunk_index(old(self).chunks@, pc, 0) is Some {
                    let pci = spec_chunk_index(old(self).chunks@, pc, 0)->0;
                    lemma_chunk_index_in_range(old(self).chunks@, pc, 0);
                    let rel_p = p.y - self.min_y;
                    if 0 <= rel_p < self.height {
                        lemma_section_in_range(rel_p as nat, self.height as nat);
                        if pci == ci {
                            assert(pc == cpos);
                            if rel_p / 16 == rel_y as int / 16 {
                                lemma_distinct_slots(p, *pos, self.min_y as int);
                                let px = p.x;
                                let pz = p.z;
                                assert(0 <= (px & 15) < 16 && 0 <= (pz & 15) < 16)
                                    by (bit_vector);
                                let qx = pos.x;
                                let qz = pos.z;
                                assert(0 <= (qx & 15) < 16 && 0 <= (qz & 15) < 16)
                                    by (bit_vector);
                                assert(self.spec_section_slot(p) < 4096);
                                assert(self.spec_section_slot(p)
                                    != old(self).spec_section_slot(*pos));
                            } else {
                                assert(self.chunks@[ci as int].1.sections[rel_p / 16]
                                    == old(self).chunks@[ci as int].1.sections[rel_p / 16]);
                            }
                        } else {
                            assert(self.chunks@[pci] == old(self).chunks@[pci]);
                        }
                    }
                }
            }
            assert forall|k: int, s: int| 0 <= k < old(self).chunks@.len() && 0 <= s < old(
                self).chunks@[k].1.sections@.len() && (#[trigger] old(
                self).chunks@[k].1.sections@[s]).states.tight()
                implies self.chunks@[k].1.sections@[s].states.tight() by {
                if k == ci {
                    if s != section_index {
                        assert(self.chunks@[k].1.sections@[s]
                            == old(self).chunks@[k].1.sections@[s]);
                    }
                } else {
                    assert(self.chunks@[k] == old(self).chunks@[k]);
                }
            }
        }
        Some(old_state)
    }
}

/// Whether a chunk at `pos` stays loaded around `center`: within one more
/// than the radius on each horizontal axis.
pub open spec fn spec_keep_chunk(center: ChunkPos, radius: u32, pos: ChunkPos) -> bool {
    &&& pos.x - center.x <= radius + 1
    &&& center.x - pos.x <= radius + 1
    &&& pos.z - center.z <= radius + 1
    &&& center.z - pos.z <= radius + 1
}

impl ChunkStorage {
    /// Move the view centre and evict every chunk farther than one more
    /// than the radius from it, keeping the rest in their order.
    pub fn update_view_center(&mut self, pos: &ChunkPos)
        requires
            old(self).wf(),
        ensures
            final(self).wf(),
            final(self).view_center == *pos,
            final(self).chunk_radius == old(self).chunk_radius,
            final(self).height == old(self).height,
            final(self).min_y == old(self).min_y,
            final(self).chunks@ == old(self).chunks@.filter(
                |c: (ChunkPos, Chunk)| spec_keep_chunk(*pos, old(self).chunk_radius, c.0),
            ),
    {
        self.view_center = *pos;
        let mut pending: Vec<(ChunkPos, Chunk)> = Vec::new();
        core::mem::swap(&mut self.chunks, &mut pending);
        let ghost orig = pending@;
        let ghost pred = (|c: (ChunkPos, Chunk)| spec_keep_chunk(
            *pos,
            old(self).chunk_radius,
            c.0,
        ));
        let ghost mut j: int = 0;
        let ghost mut src: Seq<int> = Seq::empty();
        proof {
            reveal(Seq::filter);
            assert(orig.subrange(0, 0).filter(pred) =~= Seq::<(ChunkPos, Chunk)>::empty());
        }
        let lim: i64 = (self.chunk_radius as i64) + 1;
        while pending.len() > 0
            invariant
                self.view_center == *pos,
                self.chunk_radius == old(self).chunk_radius,
                self.height == old(self).height,
                self.min_y == old(self).min_y,
                lim == old(self).chunk_radius + 1,
                forall|c: (ChunkPos, Chunk)| #[trigger] pred(c) == spec_keep_chunk(
                    *pos,
                    old(self).chunk_radius,
                    c.0,
                ),
                0 <= j <= orig.len(),
                pending@ =~= orig.subrange(j, orig.len() as int),
                self.chunks@ == orig.subrange(0, j).filter(pred),
                orig == old(self).chunks@,
                old(self).wf(),
                src.len() == self.chunks@.len(),
                forall|a: int| 0 <= a < src.len() ==> 0 <= #[trigger] src[a] < j
                    && self.chunks@[a] == orig[src[a]],
                forall|a: int, b: int| 0 <= a < b < src.len() ==> src[a] < src[b],
            decreases pending.len(),
        {
            let entry = pending.remove(0);
            proof {
                assert(entry == orig[j]);
                assert(pending@ =~= orig.subrange(j + 1, orig.len() as int));
            }
            let dx = (entry.0.x as i64) - (pos.x as i64);
            let dz = (entry.0.z as i64) - (pos.z as i64);
            let keep = dx <= lim && -dx <= lim && dz <= lim && -dz <= lim;
            proof {
                assert(pred(entry) == spec_keep_chunk(*pos, old(self).chunk_radius,
                    entry.0));
                assert(keep == spec_keep_chunk(*pos, old(self).chunk_radius, entry.0));
                assert(keep == pred(entry));
                reveal(Seq::filter);
                let pre = orig.subrange(0, j + 1);
                assert(pre.drop_last() =~= orig.subrange(0, j));
                assert(pre.last() == orig[j]);
                if keep {
                    assert(pre.filter(pred) =~= orig.subrange(0, j).filter(pred).push(
                        entry,
                    ));
                } else {
                    assert(pre.filter(pred) =~= orig.subrange(0, j).filter(pred));
                }
            }
            if keep {
                self.chunks.push(entry);
                proof {
                    src = src.push(j);
                }
            }
            proof {
                j = j + 1;
            }
        }
        proof {
            assert(orig.subrange(0, orig.len() as int) =~= orig);
            assert forall|a: int, b: int| 0 <= a < b < self.chunks@.len()
                implies self.chunks@[a].0 != self.chunks@[b].0 by {
                assert(self.chunks@[a] == orig[src[a]]);
                assert(self.chunks@[b] == orig[src[b]]);
                assert(src[a] < src[b]);
            }
            assert forall|i: int| 0 <= i < self.chunks@.len()
                implies (#[trigger] self.chunks@[i].1).wf(self.height as nat) by {
                assert(self.chunks@[i] == orig[src[i]]);
            }
        }
    }

    /// Store `chunk` under `pos`, replacing a loaded chunk there and
    /// keeping every other chunk as it was.
    fn store_chunk(&mut self, pos: &ChunkPos, chunk: Chunk)
        requires
            old(self).wf(),
            chunk.wf(old(self).height as nat),
        ensures
            final(self).wf(),
            final(self).height == old(self).height,
            final(self).min_y == old(self).min_y,
            spec_chunk_index(final(self).spec_chunks(), *pos, 0) is Some,
            match spec_chunk_index(old(self).spec_chunks(), *pos, 0) {
                Some(i) => final(self).spec_chunks() == old(self).spec_chunks().update(i,
                    (*pos, chunk)),
                None => final(self).spec_chunks() == old(self).spec_chunks().push(
                    (*pos, chunk)),
            },
    {
        let found = self.find_chunk(pos);
        match found {
            Some(i) => {
                proof {
                    lemma_chunk_index_in_range(self.chunks@, *pos, 0);
                }
                let mut entry = self.chunks.remove(i);
                entry.1 = chunk;
                entry.0 = *pos;
                self.chunks.insert(i, entry);
                proof {
                    assert(self.chunks@ =~= old(self).chunks@.update(i as int,
                        (*pos, entry.1)));
                    lemma_chunk_index_same(old(self).chunks@, self.chunks@, 0);
                }
            },
            None => {
                self.chunks.push((*pos, chunk));
                proof {
                    lemma_chunk_index_last(self.chunks@, *pos, 0);
                    assert forall|a: int, b: int| 0 <= a < b < self.chunks@.len()
                        implies self.chunks@[a].0 != self.chunks@[b].0 by {
                        if b == self.chunks@.len() - 1 {
                            lemma_chunk_index_none_no_match(old(self).chunks@, *pos, 0, a);
                        }
                    }
                }
            },
        }
    }
}

/// When the search misses, no entry from `i` on names the position.
proof fn lemma_chunk_index_none_no_match(
    chunks: Seq<(ChunkPos, Chunk)>,
    pos: ChunkPos,
    i: int,
    k: int,
)
    requires
        spec_chunk_index(chunks, pos, i) is None,
        i <= k < chunks.len(),
        0 <= i,
    ensures
        chunks[k].0 != pos,
    decreases chunks.len() - i,
{
    if i < k {
        lemma_chunk_index_none_no_match(chunks, pos, i + 1, k);
    }
}

/// A chunk list whose last entry names the position indexes to something.
proof fn lemma_chunk_index_last(chunks: Seq<(ChunkPos, Chunk)>, pos: ChunkPos, i: int)
    requires
        0 <= i < chunks.len(),
        chunks[chunks.len() - 1].0 == pos,
    ensures
        spec_chunk_index(chunks, pos, i) is Some,
    decreases chunks.len() - i,
{
    if chunks[i].0 != pos {
        lemma_chunk_index_last(chunks, pos, i + 1);
    }
}

/// A found chunk index is in range, names the position searched for, and
/// the search finds the first match.
proof fn lemma_chunk_index_in_range(chunks: Seq<(ChunkPos, Chunk)>, pos: ChunkPos, i: int)
    requires
        spec_chunk_index(chunks, pos, i) is Some,
        0 <= i,
    ensures
        i <= spec_chunk_index(chunks, pos, i)->0 < chunks.len(),
        chunks[spec_chunk_index(chunks, pos, i)->0].0 == pos,
    decreases chunks.len() - i,
{
    if i < chunks.len() && chunks[i].0 != pos {
        lemma_chunk_index_in_range(chunks, pos, i + 1);
    }
}

/// Two chunk lists with the same positions in the same order index the
/// same way.
proof fn lemma_chunk_index_same(
    a: Seq<(ChunkPos, Chunk)>,
    b: Seq<(ChunkPos, Chunk)>,
    i: int,
)
    requires
        a.len() == b.len(),
        forall|k: int| 0 <= k < a.len() ==> (#[trigger] a[k]).0 == b[k].0,
    ensures
        forall|pos: ChunkPos| #[trigger] spec_chunk_index(a, pos, i) == spec_chunk_index(b,
            pos, i),
    decreases a.len() - i,
{
    assert forall|pos: ChunkPos| #[trigger] spec_chunk_index(a, pos, i)
        == spec_chunk_index(b, pos, i) by {
        if 0 <= i < a.len() {
            lemma_chunk_index_same(a, b, i + 1);
            assert(a[i].0 == b[i].0);
            if a[i].0 == pos {
                assert(spec_chunk_index(a, pos, i) == Some(i));
                assert(spec_chunk_index(b, pos, i) == Some(i));
            } else {
                assert(spec_chunk_index(a, pos, i) == spec_chunk_index(a, pos, i + 1));
                assert(spec_chunk_index(b, pos, i) == spec_chunk_index(b, pos, i + 1));
                assert(spec_chunk_index(a, pos, i + 1) == spec_chunk_index(b, pos, i + 1));
            }
        }
    }
}

/// Two different positions in one chunk and section occupy different
/// slots, or lie in different sections or chunks.
proof fn lemma_distinct_slots(p: BlockPos, q: BlockPos, min_y: int)
    requires
        p != q,
        (p.x >> 4u32) == (q.x >> 4u32),
        (p.z >> 4u32) == (q.z >> 4u32),
        (p.y - min_y) / 16 == (q.y - min_y) / 16,
        p.y >= min_y,
        q.y >= min_y,
    ensures
        ((((p.y - min_y) % 16) * 256) + ((p.z & 15) * 16) + (p.x & 15)) != ((((q.y - min_y)
            % 16) * 256) + ((q.z & 15) * 16) + (q.x & 15)),
{
    let px = p.x;
    let qx = q.x;
    let pz = p.z;
    let qz = q.z;
    assert((px >> 4u32) == (qx >> 4u32) && (px & 15) == (qx & 15) ==> px == qx)
        by (bit_vector);
    assert((pz >> 4u32) == (qz >> 4u32) && (pz & 15) == (qz & 15) ==> pz == qz)
        by (bit_vector);
    assert(0 <= (px & 15) < 16 && 0 <= (qx & 15) < 16 && 0 <= (pz & 15) < 16 && 0 <= (qz
        & 15) < 16) by (bit_vector);
    if p.y == q.y {
        assert((p.x & 15) != (q.x & 15) || (p.z & 15) != (q.z & 15));
    } else {
        assert((p.y - min_y) % 16 != (q.y - min_y) % 16) by (nonlinear_arith)
            requires
                p.y != q.y,
                (p.y - min_y) / 16 == (q.y - min_y) / 16,
                p.y - min_y >= 0,
                q.y - min_y >= 0;
    }
}

/// A position inside the build height addresses one of the sections.
proof fn lemma_section_in_range(rel_y: nat, height: nat)
    requires
        rel_y < height,
        height % 16 == 0,
    ensures
        rel_y / 16 < height / 16,
        rel_y % 16 < 16,
{
    assert(rel_y / 16 < height / 16 && rel_y % 16 < 16) by (nonlinear_arith)
        requires rel_y < height, height % 16 == 0;
}

/// A run of VarInts standing at `pos`, one per id, ending at `end`.
pub open spec fn spec_varints_at(bytes: Seq<u8>, pos: int, ids: Seq<u32>, end: int) -> bool
    decreases ids.len(),
{
    if ids.len() == 0 {
        pos == end
    } else {
        match spec_read_varint(bytes, pos, 5, 0, 0) {
            Some((v, m)) => v == ids[0] && spec_varints_at(bytes, m, ids.drop_first(), end),
            None => false,
        }
    }
}

/// One more VarInt extends a run.
proof fn lemma_varints_push(bytes: Seq<u8>, pos: int, ids: Seq<u32>, mid: int, v: u32,
    end: int)
    requires
        spec_varints_at(bytes, pos, ids, mid),
        spec_read_varint(bytes, mid, 5, 0, 0) == Some((v, end)),
    ensures
        spec_varints_at(bytes, pos, ids.push(v), end),
    decreases ids.len(),
{
    let pushed = ids.push(v);
    if ids.len() == 0 {
        assert(pos == mid);
        assert(pushed[0] == v);
        assert(pushed.drop_first() =~= Seq::<u32>::empty());
        assert(spec_varints_at(bytes, end, pushed.drop_first(), end));
        assert(spec_varints_at(bytes, pos, pushed, end));
    } else {
        let m = match spec_read_varint(bytes, pos, 5, 0, 0) {
            Some(p) => p.1,
            None => 0int,
        };
        lemma_varints_push(bytes, m, ids.drop_first(), mid, v, end);
        assert(pushed[0] == ids[0]);
        assert(pushed.drop_first() =~= ids.drop_first().push(v));
        assert(spec_varints_at(bytes, m, pushed.drop_first(), end));
        assert(spec_varints_at(bytes, pos, pushed, end));
    }
}

/// A run of big-endian longs standing at `pos`, ending at `end`.
pub open spec fn spec_longs_at(bytes: Seq<u8>, pos: int, longs: Seq<u64>, end: int) -> bool {
    &&& 0 <= pos
    &&& end == pos + 8 * longs.len()
    &&& end <= bytes.len()
    &&& forall|k: int| 0 <= k < longs.len() ==> #[trigger] longs[k] == spec_u64_be(bytes,
        pos + 8 * k)
}

/// The id table of a container on the wire, for a given width: a single
/// id, a counted run of ids, or nothing for the direct width.
pub open spec fn spec_ids_block(bytes: Seq<u8>, pos: int, bits: u8, ids: Seq<u32>, end: int)
    -> bool {
    if bits == 0 {
        match spec_read_varint(bytes, pos, 5, 0, 0) {
            Some((v, m)) => ids =~= seq![v] && end == m,
            None => false,
        }
    } else if bits <= 8 {
        match spec_read_varint(bytes, pos, 5, 0, 0) {
            Some((count, m)) => count == ids.len() && spec_varints_at(bytes, m, ids, end),
            None => false,
        }
    } else {
        ids.len() == 0 && end == pos
    }
}

/// The packed longs of a container on the wire: their count, then the
/// longs.
pub open spec fn spec_longs_block(bytes: Seq<u8>, pos: int, longs: Seq<u64>, end: int)
    -> bool {
    match spec_read_varint(bytes, pos, 5, 0, 0) {
        Some((count, m)) => count == longs.len() && spec_longs_at(bytes, m, longs, end),
        None => false,
    }
}

/// A whole paletted container stands at `[pos, end)` of the wire and `c`
/// holds exactly the ids it encodes: a width byte, the id table, the
/// longs, all sound for `size` entries.
pub open spec fn spec_container_at(
    bytes: Seq<u8>,
    pos: int,
    end: int,
    size: nat,
    c: PalettedContainer,
) -> bool {
    exists|ids: Seq<u32>, longs: Seq<u64>, mid: int|
        #![trigger spec_ids_block(bytes, pos + 1, bytes[pos], ids, mid),
            spec_longs_block(bytes, mid, longs, end)] {
        &&& 0 <= pos < bytes.len()
        &&& spec_ids_block(bytes, pos + 1, bytes[pos], ids, mid)
        &&& spec_longs_block(bytes, mid, longs, end)
        &&& spec_wire_parts_ok(bytes[pos] as nat, ids, longs, size)
        &&& forall|i: nat| i < size ==> #[trigger] c.spec_id_at(i) == spec_wire_id_at(
            bytes[pos] as nat, ids, longs, i)
    }
}

/// A whole chunk section stands at `[pos, end)` of the wire: a block
/// count, the block states, and the biomes.
pub open spec fn spec_section_at(bytes: Seq<u8>, pos: int, end: int, section: ChunkSection)
    -> bool {
    exists|mid: int| {
        &&& 0 <= pos && pos + 2 <= bytes.len()
        &&& #[trigger] spec_container_at(bytes, pos + 2, mid, SECTION_VOLUME as nat,
            section.states)
        &&& spec_container_at(bytes, mid, end, BIOME_SECTION_VOLUME as nat, section.biomes)
    }
}

/// Read one byte.
fn read_u8(buf: &Vec<u8>, pos: usize) -> (r: Result<(u8, usize), BufReadError>)
    requires
        pos <= buf.len(),
    ensures
        match r {
            Ok((v, next)) => next == pos + 1 <= buf.len() && v == buf@[pos as int],
            Err(e) => pos + 1 > buf.len() && e == BufReadError::UnexpectedEnd,
        },
{
    if buf.len() - pos < 1 {
        return Err(BufReadError::UnexpectedEnd);
    }
    Ok((buf[pos], pos + 1))
}

/// Parse one paletted container off the wire: a bit width, the id table
/// it implies, and the packed longs. Every structural fault is refused.
fn read_paletted_container(data: &Vec<u8>, pos: usize, size: usize) -> (r: Result<
    (PalettedContainer, usize),
    BufReadError,
>)
    requires
        pos <= data.len(),
        1 <= size <= 4096,
    ensures
        match r {
            Ok((c, next)) => {
                &&& c.wf() && c.spec_size() == size && pos <= next <= data.len()
                &&& spec_container_at(data@, pos as int, next as int, size as nat, c)
            },
            Err(e) => true,
        },
{
    let (bits, p_after_bits) = match read_u8(data, pos) {
        Ok(v) => v,
        Err(e) => {
            return Err(e);
        },
    };
    let bits = bits as usize;
    let mut p = p_after_bits;

    let mut palette: Vec<u32> = Vec::new();
    if bits == 0 {
        let (id, p2) = match read_varint(data, p) {
            Ok(v) => v,
            Err(e) => {
                return Err(e);
            },
        };
        if id < 0 || id >= 0x8000 {
            return Err(BufReadError::InvalidTag);
        }
        palette.push(id as u32);
        proof {
            assert(palette@ =~= seq![id as u32]);
        }
        p = p2;
    } else if bits <= 8 {
        let (count, p2) = match read_varint(data, p) {
            Ok(v) => v,
            Err(e) => {
                return Err(e);
            },
        };
        if count < 1 || count > 256 {
            return Err(BufReadError::InvalidTag);
        }
        p = p2;
        let mut k: i32 = 0;
        while k < count
            invariant
                0 <= k <= count <= 256,
                pos <= p <= data.len(),
                palette.len() == k,
                spec_varints_at(data@, p2 as int, palette@, p as int),
            decreases count - k,
        {
            let (id, p3) = match read_varint(data, p) {
                Ok(v) => v,
                Err(e) => {
                    return Err(e);
                },
            };
            if id < 0 || id >= 0x8000 {
                return Err(BufReadError::InvalidTag);
            }
            proof {
                lemma_varints_push(data@, p2 as int, palette@, p as int, (id as u32),
                    p3 as int);
            }
            palette.push(id as u32);
            p = p3;
            k = k + 1;
        }
    } else if bits != 15 {
        return Err(BufReadError::InvalidTag);
    }
    let ghost ids_end: int = p as int;
    let ghost gids: Seq<u32> = palette@;

    let (long_count, p4) = match read_varint(data, p) {
        Ok(v) => v,
        Err(e) => {
            return Err(e);
        },
    };
    if long_count < 0 || long_count > 1024 {
        return Err(BufReadError::InvalidTag);
    }
    p = p4;
    let mut longs: Vec<u64> = Vec::new();
    let mut k: i32 = 0;
    while k < long_count
        invariant
            0 <= k <= long_count <= 1024,
            pos <= p <= data.len(),
            longs.len() == k,
            p == p4 + 8 * longs@.len(),
            forall|m: int| 0 <= m < longs@.len() ==> #[trigger] longs@[m] == spec_u64_be(
                data@, p4 + 8 * m),
        decreases long_count - k,
    {
        let (v, p5) = match read_u64_be(data, p) {
            Ok(v) => v,
            Err(e) => {
                return Err(e);
            },
        };
        longs.push(v);
        p = p5;
        k = k + 1;
    }
    let ghost glongs: Seq<u64> = longs@;

    match PalettedContainer::from_wire(bits, palette, longs, size) {
        Some(c) => {
            proof {
                let bbyte = data@[pos as int];
                assert(spec_ids_block(data@, pos + 1, bbyte, gids, ids_end));
                assert(spec_longs_at(data@, p4 as int, glongs, p as int));
                assert(spec_longs_block(data@, ids_end, glongs, p as int));
                assert(spec_container_at(data@, pos as int, p as int, size as nat, c));
            }
            Ok((c, p))
        },
        None => Err(BufReadError::InvalidTag),
    }
}

/// Parse one chunk section: the block count, the block states, and the
/// biomes.
fn read_section(data: &Vec<u8>, pos: usize) -> (r: Result<(ChunkSection, usize), BufReadError>)
    requires
        pos <= data.len(),
    ensures
        match r {
            Ok((s, next)) => {
                &&& s.wf() && pos <= next <= data.len()
                &&& spec_section_at(data@, pos as int, next as int, s)
            },
            Err(e) => true,
        },
{
    let (_block_count, p) = match read_u16_be(data, pos) {
        Ok(v) => v,
        Err(e) => {
            return Err(e);
        },
    };
    let (states, p2) = match read_paletted_container(data, p, SECTION_VOLUME) {
        Ok(v) => v,
        Err(e) => {
            return Err(e);
        },
    };
    let (biomes, p3) = match read_paletted_container(data, p2, BIOME_SECTION_VOLUME) {
        Ok(v) => v,
        Err(e) => {
            return Err(e);
        },
    };
    let section = ChunkSection { states, biomes };
    proof {
        assert(spec_container_at(data@, pos + 2, p2 as int, SECTION_VOLUME as nat,
            section.states));
        assert(spec_container_at(data@, p2 as int, p3 as int, BIOME_SECTION_VOLUME as nat,
            section.biomes));
        assert(spec_section_at(data@, pos as int, p3 as int, section));
    }
    Ok((section, p3))
}

/// An entity as the world tracks it.
#[derive(Debug, Clone, Copy, PartialEq, Eq, Structural)]
pub struct EntityData {
    /// The stable id the server chose.
    pub id: u32,
    pub uuid: u128,
    pub pos: FixedVec3,
}

/// The index of the entity with `id`, if it is present.
pub open spec fn spec_entity_index(entities: Seq<EntityData>, id: u32, i: int) -> Option<int>
    decreases entities.len() - i,
{
    if i < 0 || i >= entities.len() {
        None
    } else if entities[i].id == id {
        Some(i)
    } else {
        spec_entity_index(entities, id, i + 1)
    }
}

/// Every entity the world tracks, each under its server id.
pub struct EntityStorage {
    pub entities: Vec<EntityData>,
}

impl EntityStorage {
    /// Server ids are unique.
    pub open spec fn wf(&self) -> bool {
        forall|i: int, j: int| 0 <= i < j < self.entities.len()
            ==> self.entities[i].id != self.entities[j].id
    }

    pub fn new() -> (r: EntityStorage)
        ensures
            r.wf(),
            r.entities@.len() == 0,
    {
        EntityStorage { entities: Vec::new() }
    }

    /// The index of the entity with `id`, if any.
    fn find(&self, id: u32) -> (r: Option<usize>)
        ensures
            match r {
                Some(i) => spec_entity_index(self.entities@, id, 0) == Some(i as int),
                None => spec_entity_index(self.entities@, id, 0) is None,
            },
    {
        let mut i: usize = 0;
        while i < self.entities.len()
            invariant
                i <= self.entities.len(),
                spec_entity_index(self.entities@, id, 0) == spec_entity_index(
                    self.entities@, id, i as int),
            decreases self.entities.len() - i,
        {
            if self.entities[i].id == id {
                return Some(i);
            }
            i = i + 1;
        }
        None
    }

    /// Track `entity` under `id`, replacing whatever was there.
    pub fn insert(&mut self, id: u32, entity: EntityData)
        requires
            old(self).wf(),
        ensures
            final(self).wf(),
            match spec_entity_index(old(self).entities@, id, 0) {
                Some(i) => final(self).entities@ == old(self).entities@.update(i,
                    (EntityData { id, ..entity })),
                None => final(self).entities@ == old(self).entities@.push(
                    (EntityData { id, ..entity })),
            },
    {
        let stored = EntityData { id, uuid: entity.uuid, pos: entity.pos };
        let found = self.find(id);
        match found {
            Some(i) => {
                proof {
                    lemma_entity_index_in_range(self.entities@, id, 0);
                }
                self.entities.remove(i);
                self.entities.insert(i, stored);
                proof {
                    assert(self.entities@ =~= old(self).entities@.update(i as int, stored));
                    lemma_entity_index_same(old(self).entities@, self.entities@, 0);
                }
            },
            None => {
                self.entities.push(stored);
                proof {
                    assert forall|a: int, b: int| 0 <= a < b < self.entities@.len()
                        implies self.entities@[a].id != self.entities@[b].id by {
                        if b == self.entities@.len() - 1 {
                            lemma_entity_index_none_no_match(old(self).entities@, id, 0, a);
                        }
                    }
                }
            },
        }
    }

    /// The entity with `id`, if it is tracked.
    pub fn get_by_id(&self, id: u32) -> (r: Option<&EntityData>)
        ensures
            match r {
                Some(e) => {
                    &&& spec_entity_index(self.entities@, id, 0) is Some
                    &&& *e == self.entities@[spec_entity_index(self.entities@, id, 0)->0]
                    &&& e.id == id
                },
                None => spec_entity_index(self.entities@, id, 0) is None,
            },
    {
        let found = self.find(id);
        match found {
            Some(i) => {
                proof {
                    lemma_entity_index_in_range(self.entities@, id, 0);
                }
                Some(&self.entities[i])
            },
            None => None,
        }
    }

    /// A mutable borrow of the entity with `id`, if it is tracked; the
    /// store afterwards holds whatever the caller leaves in the borrow.
    pub fn get_mut_by_id(&mut self, id: u32) -> (r: Option<&mut EntityData>)
        requires
            old(self).wf(),
        ensures
            match r {
                Some(e) => {
                    &&& spec_entity_index(old(self).entities@, id, 0) matches Some(i)
                        && *e == old(self).entities@[i] && final(self).entities@
                        == old(self).entities@.update(i, *final(e))
                },
                None => spec_entity_index(old(self).entities@, id, 0) is None
                    && *final(self) == *old(self),
            },
    {
        let found = self.find(id);
        match found {
            Some(i) => {
                proof {
                    lemma_entity_index_in_range(self.entities@, id, 0);
                }
                Some(&mut self.entities[i])
            },
            None => None,
        }
    }

    /// Replace the tracked position of entity `id`.
    pub fn set_entity_pos(&mut self, id: u32, new_pos: FixedVec3) -> (r: Result<
        (),
        MoveEntityError,
    >)
        requires
            old(self).wf(),
        ensures
            final(self).wf(),
            match spec_entity_index(old(self).entities@, id, 0) {
                Some(i) => r is Ok && final(self).entities@ == old(self).entities@.update(i,
                    (EntityData { pos: new_pos, ..old(self).entities@[i] })),
                None => r == Err::<(), MoveEntityError>(MoveEntityError::EntityDoesNotExist)
                    && *final(self) == *old(self),
            },
    {
        let found = self.find(id);
        match found {
            Some(i) => {
                proof {
                    lemma_entity_index_in_range(self.entities@, id, 0);
                }
                let mut entry = self.entities.remove(i);
                entry.pos = new_pos;
                self.entities.insert(i, entry);
                proof {
                    assert(self.entities@ =~= old(self).entities@.update(i as int, entry));
                    lemma_entity_index_same(old(self).entities@, self.entities@, 0);
                }
                Ok(())
            },
            None => Err(MoveEntityError::EntityDoesNotExist),
        }
    }
}

/// A found entity index is in range and names the id searched for.
proof fn lemma_entity_index_in_range(entities: Seq<EntityData>, id: u32, i: int)
    requires
        spec_entity_index(entities, id, i) is Some,
        0 <= i,
    ensures
        i <= spec_entity_index(entities, id, i)->0 < entities.len(),
        entities[spec_entity_index(entities, id, i)->0].id == id,
    decreases entities.len() - i,
{
    if i < entities.len() && entities[i].id != id {
        lemma_entity_index_in_range(entities, id, i + 1);
    }
}

/// Two entity lists with the same ids in the same order index the same
/// way.
proof fn lemma_entity_index_same(a: Seq<EntityData>, b: Seq<EntityData>, i: int)
    requires
        a.len() == b.len(),
        forall|k: int| 0 <= k < a.len() ==> (#[trigger] a[k]).id == b[k].id,
    ensures
        forall|id: u32| #[trigger] spec_entity_index(a, id, i) == spec_entity_index(b, id,
            i),
    decreases a.len() - i,
{
    assert forall|id: u32| #[trigger] spec_entity_index(a, id, i)
        == spec_entity_index(b, id, i) by {
        if 0 <= i < a.len() {
            lemma_entity_index_same(a, b, i + 1);
            assert(a[i].id == b[i].id);
            if a[i].id == id {
            } else {
                assert(spec_entity_index(a, id, i) == spec_entity_index(a, id, i + 1));
                assert(spec_entity_index(b, id, i) == spec_entity_index(b, id, i + 1));
            }
        }
    }
}

/// When the search misses, no entity from `i` on carries the id.
proof fn lemma_entity_index_none_no_match(entities: Seq<EntityData>, id: u32, i: int, k: int)
    requires
        spec_entity_index(entities, id, i) is None,
        i <= k < entities.len(),
        0 <= i,
    ensures
        entities[k].id != id,
    decreases entities.len() - i,
{
    if i < k {
        lemma_entity_index_none_no_match(entities, id, i + 1, k);
    }
}

/// Moving an entity failed.
#[derive(Debug, Clone, Copy, PartialEq, Eq, Structural)]
pub enum MoveEntityError {
    EntityDoesNotExist,
}

impl From<MoveEntityError> for MovePlayerError {
    /// A missing entity surfaces to the player mover as not being in a
    /// world.
    fn from(e: MoveEntityError) -> (r: MovePlayerError) {
        match e {
            MoveEntityError::EntityDoesNotExist => MovePlayerError::PlayerNotInWorld,
        }
    }
}

impl vstd::std_specs::convert::FromSpecImpl<MoveEntityError> for MovePlayerError {
    open spec fn obeys_from_spec() -> bool {
        true
    }

    open spec fn from_spec(e: MoveEntityError) -> Self {
        MovePlayerError::PlayerNotInWorld
    }
}

/// A dimension is a collection of chunks and entities.
pub struct Dimension {
    pub chunk_storage: ChunkStorage,
    pub entity_storage: EntityStorage,
}

impl Dimension {
    pub open spec fn wf(&self) -> bool {
        self.chunk_storage.wf() && self.entity_storage.wf()
    }

    /// An empty dimension of the given vertical extent.
    pub fn new(chunk_radius: u32, height: u32, min_y: i32) -> (r: Dimension)
        requires
            height % 16 == 0,
            height <= 4096,
            -2048 <= min_y <= 2048,
        ensures
            r.wf(),
            r.chunk_storage.height == height,
            r.chunk_storage.min_y == min_y,
            r.chunk_storage.spec_chunks().len() == 0,
            r.entity_storage.entities@.len() == 0,
    {
        Dimension {
            chunk_storage: ChunkStorage::new(chunk_radius, height, min_y),
            entity_storage: EntityStorage::new(),
        }
    }

    /// Parse a chunk off a chunk-data payload and store it under `pos`.
    /// On any parse fault nothing changes and the fault is returned.
    pub fn replace_with_packet_data(&mut self, pos: &ChunkPos, data: &Vec<u8>) -> (r: Result<
        (),
        BufReadError,
    >)
        requires
            old(self).wf(),
        ensures
            final(self).wf(),
            final(self).entity_storage == old(self).entity_storage,
            final(self).chunk_storage.height == old(self).chunk_storage.height,
            final(self).chunk_storage.min_y == old(self).chunk_storage.min_y,
            match r {
                Ok(()) => spec_chunk_index(final(self).chunk_storage.spec_chunks(), *pos, 0)
                    is Some && (match spec_chunk_index(old(self).chunk_storage.spec_chunks(),
                    *pos, 0) {
                    Some(i) => forall|k: int| 0 <= k
                        < old(self).chunk_storage.spec_chunks().len() && k != i
                        ==> final(self).chunk_storage.spec_chunks()[k] == old(
                        self).chunk_storage.spec_chunks()[k],
                    None => forall|k: int| 0 <= k
                        < old(self).chunk_storage.spec_chunks().len()
                        ==> final(self).chunk_storage.spec_chunks()[k] == old(
                        self).chunk_storage.spec_chunks()[k],
                }) && ({
                    let ci = spec_chunk_index(final(self).chunk_storage.spec_chunks(),
                        *pos, 0)->0;
                    let chunk = final(self).chunk_storage.spec_chunks()[ci].1;
                    &&& chunk.sections.len() == old(self).chunk_storage.height as nat / 16
                    &&& exists|cuts: Seq<int>| #![auto] {
                        &&& cuts.len() == chunk.sections.len() + 1
                        &&& cuts[0] == 0
                        &&& forall|s: int| 0 <= s < chunk.sections.len()
                            ==> #[trigger] spec_section_at(data@, cuts[s], cuts[s + 1],
                            chunk.sections[s])
                    }
                }),
                Err(e) => *final(self) == *old(self),
            },
    {
        let n_sections = (self.chunk_storage.height / 16) as usize;
        let mut sections: Vec<ChunkSection> = Vec::new();
        let mut p: usize = 0;
        let ghost mut cuts: Seq<int> = seq![0int];
        while sections.len() < n_sections
            invariant
                *self == *old(self),
                old(self).wf(),
                p <= data.len(),
                sections.len() <= n_sections,
                cuts.len() == sections.len() + 1,
                cuts[0] == 0,
                cuts.last() == p as int,
                forall|i: int| 0 <= i < sections.len() ==> (#[trigger] sections[i]).wf(),
                forall|s: int| 0 <= s < sections.len() ==> #[trigger] spec_section_at(
                    data@, cuts[s], cuts[s + 1], sections[s]),
            decreases n_sections - sections.len(),
        {
            let (section, p2) = match read_section(data, p) {
                Ok(v) => v,
                Err(e) => {
                    return Err(e);
                },
            };
            sections.push(section);
            proof {
                cuts = cuts.push(p2 as int);
            }
            p = p2;
        }
        let chunk = Chunk { sections };
        let ghost gchunk = chunk;
        self.chunk_storage.store_chunk(pos, chunk);
        proof {
            let olds = old(self).chunk_storage.spec_chunks();
            let news = self.chunk_storage.spec_chunks();
            match spec_chunk_index(olds, *pos, 0) {
                Some(i) => {
                    lemma_chunk_index_in_range(olds, *pos, 0);
                    assert(news == olds.update(i, (*pos, gchunk)));
                    assert forall|k: int| 0 <= k < olds.len() && k != i
                        implies news[k] == olds[k] by {}
                    lemma_chunk_index_in_range(news, *pos, 0);
                    let ci = spec_chunk_index(news, *pos, 0)->0;
                    if ci != i {
                        assert(news[ci] == olds[ci]);
                        assert(olds[ci].0 != olds[i].0);
                    }
                    assert(news[ci].1 == gchunk);
                },
                None => {
                    assert(news == olds.push((*pos, gchunk)));
                    assert forall|k: int| 0 <= k < olds.len()
                        implies news[k] == olds[k] by {}
                    lemma_chunk_index_in_range(news, *pos, 0);
                    let ci = spec_chunk_index(news, *pos, 0)->0;
                    if ci != olds.len() {
                        assert(news[ci] == olds[ci]);
                        lemma_chunk_index_none_no_match(olds, *pos, 0, ci);
                    }
                    assert(news[ci].1 == gchunk);
                },
            }
        }
        Ok(())
    }

    /// Load an empty chunk (all air, all one biome) at `pos`, replacing
    /// whatever chunk was loaded there and keeping every other chunk as it
    /// was.
    pub fn load_empty_chunk(&mut self, pos: &ChunkPos)
        requires
            old(self).wf(),
        ensures
            final(self).wf(),
            final(self).entity_storage == old(self).entity_storage,
            final(self).chunk_storage.height == old(self).chunk_storage.height,
            final(self).chunk_storage.min_y == old(self).chunk_storage.min_y,
            spec_chunk_index(final(self).chunk_storage.spec_chunks(), *pos, 0) is Some,
            match spec_chunk_index(old(self).chunk_storage.spec_chunks(), *pos, 0) {
                Some(i) => forall|k: int| 0 <= k
                    < old(self).chunk_storage.spec_chunks().len() && k != i
                    ==> final(self).chunk_storage.spec_chunks()[k]
                    == old(self).chunk_storage.spec_chunks()[k],
                None => forall|k: int| 0 <= k < old(self).chunk_storage.spec_chunks().len()
                    ==> final(self).chunk_storage.spec_chunks()[k]
                    == old(self).chunk_storage.spec_chunks()[k],
            },
            ({
                let ci = spec_chunk_index(final(self).chunk_storage.spec_chunks(), *pos,
                    0)->0;
                let chunk = final(self).chunk_storage.spec_chunks()[ci].1;
                &&& chunk.sections.len() == old(self).chunk_storage.height as nat / 16
                &&& forall|s: int, j: nat| 0 <= s < chunk.sections.len() && j < 4096
                    ==> #[trigger] chunk.sections[s].states.spec_id_at(j) == 0
                &&& forall|s: int| 0 <= s < chunk.sections.len()
                    ==> (#[trigger] chunk.sections[s]).states.tight()
            }),
    {
        let n_sections = (self.chunk_storage.height / 16) as usize;
        let mut sections: Vec<ChunkSection> = Vec::new();
        while sections.len() < n_sections
            invariant
                sections.len() <= n_sections,
                forall|i: int| 0 <= i < sections.len() ==> (#[trigger] sections[i]).wf(),
                forall|i: int, j: nat| 0 <= i < sections.len() && j < 4096
                    ==> #[trigger] sections[i].states.spec_id_at(j) == 0,
                forall|i: int| 0 <= i < sections.len()
                    ==> (#[trigger] sections[i]).states.tight(),
            decreases n_sections - sections.len(),
        {
            sections.push(ChunkSection {
                states: PalettedContainer::new_single(SECTION_VOLUME, 0),
                biomes: PalettedContainer::new_single(BIOME_SECTION_VOLUME, 0),
            });
        }
        let chunk = Chunk { sections };
        let ghost gchunk = chunk;
        self.chunk_storage.store_chunk(pos, chunk);
        proof {
            let olds = old(self).chunk_storage.spec_chunks();
            let news = self.chunk_storage.spec_chunks();
            match spec_chunk_index(olds, *pos, 0) {
                Some(i) => {
                    lemma_chunk_index_in_range(olds, *pos, 0);
                    assert(news == olds.update(i, (*pos, gchunk)));
                    assert forall|k: int| 0 <= k < olds.len() && k != i
                        implies news[k] == olds[k] by {}
                    lemma_chunk_index_in_range(news, *pos, 0);
                    let ci = spec_chunk_index(news, *pos, 0)->0;
                    if ci != i {
                        assert(news[ci] == olds[ci]);
                        assert(olds[ci].0 != olds[i].0);
                    }
                    assert(news[ci].1 == gchunk);
                },
                None => {
                    assert(news == olds.push((*pos, gchunk)));
                    assert forall|k: int| 0 <= k < olds.len() implies news[k] == olds[k]
                        by {}
                    lemma_chunk_index_in_range(news, *pos, 0);
                    let ci = spec_chunk_index(news, *pos, 0)->0;
                    if ci != olds.len() {
                        assert(news[ci] == olds[ci]);
                        lemma_chunk_index_none_no_match(olds, *pos, 0, ci);
                    }
                    assert(news[ci].1 == gchunk);
                },
            }
        }
    }

    /// Move the view centre, evicting the chunks now out of range.
    pub fn update_view_center(&mut self, pos: &ChunkPos)
        requires
            old(self).wf(),
        ensures
            final(self).wf(),
            final(self).entity_storage == old(self).entity_storage,
            final(self).chunk_storage.view_center == *pos,
            final(self).chunk_storage.chunk_radius == old(self).chunk_storage.chunk_radius,
            final(self).chunk_storage.height == old(self).chunk_storage.height,
            final(self).chunk_storage.min_y == old(self).chunk_storage.min_y,
            final(self).chunk_storage.chunks@ == old(self).chunk_storage.chunks@.filter(
                |c: (ChunkPos, Chunk)| spec_keep_chunk(
                    *pos,
                    old(self).chunk_storage.chunk_radius,
                    c.0,
                ),
            ),
    {
        self.chunk_storage.update_view_center(pos);
    }

    /// Look a block up.
    pub fn get_block_state(&self, pos: &BlockPos) -> (r: Option<u32>)
        requires
            self.wf(),
        ensures
            r == self.chunk_storage.spec_block_state(*pos),
    {
        self.chunk_storage.get_block_state(pos)
    }

    /// Replace a block, returning what stood there.
    pub fn set_block_state(&mut self, pos: &BlockPos, state: u32) -> (r: Option<u32>)
        requires
            old(self).wf(),
            state < 0x8000,
        ensures
            final(self).wf(),
            final(self).entity_storage == old(self).entity_storage,
            final(self).chunk_storage.view_center == old(self).chunk_storage.view_center,
            final(self).chunk_storage.chunk_radius == old(self).chunk_storage.chunk_radius,
            r == old(self).chunk_storage.spec_block_state(*pos),
            r is Some ==> final(self).chunk_storage.spec_block_state(*pos) == Some(state),
            r is None ==> *final(self) == *old(self),
            forall|p: BlockPos| p != *pos ==> final(self).chunk_storage.spec_block_state(p)
                == old(self).chunk_storage.spec_block_state(p),
            forall|k: int, s: int| 0 <= k < old(self).chunk_storage.chunks@.len() && 0 <= s
                < old(self).chunk_storage.chunks@[k].1.sections@.len() && (#[trigger] old(
                self).chunk_storage.chunks@[k].1.sections@[s]).states.tight()
                ==> final(self).chunk_storage.chunks@[k].1.sections@[s].states.tight(),
    {
        self.chunk_storage.set_block_state(pos, state)
    }

    /// Move an entity to an absolute position.
    pub fn set_entity_pos(&mut self, entity_id: u32, new_pos: FixedVec3) -> (r: Result<
        (),
        MoveEntityError,
    >)
        requires
            old(self).wf(),
        ensures
            final(self).wf(),
            final(self).chunk_storage == old(self).chunk_storage,
            match spec_entity_index(old(self).entity_storage.entities@, entity_id, 0) {
                Some(i) => r is Ok && final(self).entity_storage.entities@ == old(
                    self).entity_storage.entities@.update(i, (EntityData {
                    pos: new_pos,
                    ..old(self).entity_storage.entities@[i]
                })),
                None => r == Err::<(), MoveEntityError>(MoveEntityError::EntityDoesNotExist)
                    && *final(self) == *old(self),
            },
    {
        self.entity_storage.set_entity_pos(entity_id, new_pos)
    }

    /// Move an entity by a relative delta, as movement packets carry it.
    pub fn move_entity_with_delta(&mut self, entity_id: u32, delta: &FixedVec3) -> (r: Result<
        (),
        MoveEntityError,
    >)
        requires
            old(self).wf(),
            match spec_entity_index(old(self).entity_storage.entities@, entity_id, 0) {
                Some(i) => {
                    let e = old(self).entity_storage.entities@[i];
                    &&& i64::MIN <= e.pos.x + delta.x <= i64::MAX
                    &&& i64::MIN <= e.pos.y + delta.y <= i64::MAX
                    &&& i64::MIN <= e.pos.z + delta.z <= i64::MAX
                },
                None => true,
            },
        ensures
            final(self).wf(),
            final(self).chunk_storage == old(self).chunk_storage,
            match spec_entity_index(old(self).entity_storage.entities@, entity_id, 0) {
                Some(i) => {
                    let e = old(self).entity_storage.entities@[i];
                    r is Ok && final(self).entity_storage.entities@ == old(
                        self).entity_storage.entities@.update(i, (EntityData {
                        pos: FixedVec3 {
                            x: (e.pos.x + delta.x) as i64,
                            y: (e.pos.y + delta.y) as i64,
                            z: (e.pos.z + delta.z) as i64,
                        },
                        ..e
                    }))
                },
                None => r == Err::<(), MoveEntityError>(MoveEntityError::EntityDoesNotExist)
                    && *final(self) == *old(self),
            },
    {
        let e = match self.entity_storage.get_by_id(entity_id) {
            Some(e) => *e,
            None => {
                return Err(MoveEntityError::EntityDoesNotExist);
            },
        };
        proof {
            lemma_entity_index_in_range(self.entity_storage.entities@, entity_id, 0);
        }
        let new_pos = FixedVec3 {
            x: e.pos.x + delta.x,
            y: e.pos.y + delta.y,
            z: e.pos.z + delta.z,
        };
        self.entity_storage.set_entity_pos(entity_id, new_pos)
    }

    /// Track an entity under `id`.
    pub fn add_entity(&mut self, id: u32, entity: EntityData)
        requires
            old(self).wf(),
        ensures
            final(self).wf(),
            final(self).chunk_storage == old(self).chunk_storage,
            match spec_entity_index(old(self).entity_storage.entities@, id, 0) {
                Some(i) => final(self).entity_storage.entities@ == old(
                    self).entity_storage.entities@.update(i, (EntityData { id, ..entity })),
                None => final(self).entity_storage.entities@ == old(
                    self).entity_storage.entities@.push((EntityData { id, ..entity })),
            },
    {
        self.entity_storage.insert(id, entity);
    }

    /// The world's vertical extent.
    pub fn height(&self) -> (r: u32)
        ensures
            r == self.chunk_storage.height,
    {
        self.chunk_storage.height
    }

    /// The lowest block y of the world.
    pub fn min_y(&self) -> (r: i32)
        ensures
            r == self.chunk_storage.min_y,
    {
        self.chunk_storage.min_y
    }

    /// The entity with `id`, if it is tracked.
    pub fn entity_data_by_id(&self, id: u32) -> (r: Option<&EntityData>)
        ensures
            match r {
                Some(e) => spec_entity_index(self.entity_storage.entities@, id, 0) is Some
                    && *e == self.entity_storage.entities@[spec_entity_index(
                    self.entity_storage.entities@, id, 0)->0] && e.id == id,
                None => spec_entity_index(self.entity_storage.entities@, id, 0) is None,
            },
    {
        self.entity_storage.get_by_id(id)
    }

    /// A mutable borrow of the entity with `id`, if it is tracked; the
    /// world afterwards holds whatever the caller leaves in the borrow.
    pub fn entity_data_mut_by_id(&mut self, id: u32) -> (r: Option<&mut EntityData>)
        requires
            old(self).wf(),
        ensures
            final(self).chunk_storage == old(self).chunk_storage,
            match r {
                Some(e) => {
                    &&& spec_entity_index(old(self).entity_storage.entities@, id, 0)
                        matches Some(i) && *e == old(self).entity_storage.entities@[i]
                        && final(self).entity_storage.entities@
                        == old(self).entity_storage.entities@.update(i, *final(e))
                },
                None => spec_entity_index(old(self).entity_storage.entities@, id, 0)
                    is None && *final(self) == *old(self),
            },
    {
        self.entity_storage.get_mut_by_id(id)
    }

    /// The entity with `id`, if it is tracked.
    pub fn entity(&self, id: u32) -> (r: Option<&EntityData>)
        ensures
            match r {
                Some(e) => spec_entity_index(self.entity_storage.entities@, id, 0) is Some
                    && *e == self.entity_storage.entities@[spec_entity_index(
                    self.entity_storage.entities@, id, 0)->0] && e.id == id,
                None => spec_entity_index(self.entity_storage.entities@, id, 0) is None,
            },
    {
        self.entity_storage.get_by_id(id)
    }

    /// The entity with `uuid`, if one is tracked.
    pub fn entity_by_uuid(&self, uuid: u128) -> (r: Option<&EntityData>)
        ensures
            match r {
                Some(e) => e.uuid == uuid && exists|i: int| 0 <= i
                    < self.entity_storage.entities@.len()
                    && #[trigger] self.entity_storage.entities@[i] == *e,
                None => forall|i: int| 0 <= i < self.entity_storage.entities@.len()
                    ==> (#[trigger] self.entity_storage.entities@[i]).uuid != uuid,
            },
    {
        let mut i: usize = 0;
        while i < self.entity_storage.entities.len()
            invariant
                i <= self.entity_storage.entities.len(),
                forall|k: int| 0 <= k < i ==> (#[trigger] self.entity_storage.entities@[
                    k]).uuid != uuid,
            decreases self.entity_storage.entities.len() - i,
        {
            if self.entity_storage.entities[i].uuid == uuid {
                return Some(&self.entity_storage.entities[i]);
            }
            i = i + 1;
        }
        None
    }

    /// All tracked entities, in insertion order.
    pub fn entities(&self) -> (r: &Vec<EntityData>)
        ensures
            r == self.entity_storage.entities,
    {
        &self.entity_storage.entities
    }

    /// The first tracked entity that satisfies `f`, if any.
    pub fn find_one_entity<F: Fn(&EntityData) -> bool>(&self, f: F) -> (r: Option<
        &EntityData,
    >)
        requires
            forall|e: &EntityData| #[trigger] f.requires((e,)),
        ensures
            match r {
                Some(e) => f.ensures((e,), true) && exists|i: int| 0 <= i
                    < self.entity_storage.entities@.len()
                    && #[trigger] self.entity_storage.entities@[i] == *e,
                None => forall|i: int| 0 <= i < self.entity_storage.entities@.len()
                    ==> f.ensures((&self.entity_storage.entities[i],), false),
            },
    {
        let mut i: usize = 0;
        while i < self.entity_storage.entities.len()
            invariant
                i <= self.entity_storage.entities.len(),
                forall|e: &EntityData| #[trigger] f.requires((e,)),
                forall|k: int| 0 <= k < i ==> f.ensures((&self.entity_storage.entities[
                    k],), false),
            decreases self.entity_storage.entities.len() - i,
        {
            if f(&self.entity_storage.entities[i]) {
                return Some(&self.entity_storage.entities[i]);
            }
            i = i + 1;
        }
        None
    }
}

} // verus!
