//! Paletted storage for chunk sections: a bit-packed array of entries and
//! the palette that maps its small indices to global ids.

use vstd::prelude::*;

verus! {

/// How many entries fit in one long at `bits` per entry; entries never
/// span two longs.
pub open spec fn spec_values_per_long(bits: nat) -> nat {
    64nat / bits
}

/// How many longs `size` entries need at `bits` per entry.
pub open spec fn spec_longs_for(bits: nat, size: nat) -> int {
    (size + spec_values_per_long(bits) - 1) / (spec_values_per_long(bits) as int)
}

/// A bit-packed array: `size` entries of `bits` bits each, packed into
/// 64-bit longs without crossing long boundaries.
#[derive(Debug, Clone)]
pub struct BitStorage {
    data: Vec<u64>,
    bits: usize,
    size: usize,
}

impl BitStorage {
    /// The mask an entry is read through.
    pub open spec fn spec_mask(bits: nat) -> u64 {
        ((1u64 << bits) - 1) as u64
    }

    /// The number of entries.
    pub closed spec fn spec_size(&self) -> nat {
        self.size as nat
    }

    /// Bits per entry.
    pub closed spec fn spec_bits(&self) -> nat {
        self.bits as nat
    }

    /// The entry at `i`, read out of its long.
    pub closed spec fn spec_entry(&self, i: nat) -> u64 {
        let vpl = spec_values_per_long(self.bits as nat);
        let word = self.data[(i / vpl) as int];
        let off = ((i % vpl) * (self.bits as nat)) as u64;
        ((word >> off) & Self::spec_mask(self.bits as nat)) as u64
    }

    /// A storage is well formed when its bit width is usable and its data
    /// holds exactly the longs its size asks for.
    pub closed spec fn wf(&self) -> bool {
        &&& 1 <= self.bits <= 32
        &&& self.size <= 0x100000
        &&& self.data.len() == spec_longs_for(self.bits as nat, self.size as nat)
    }

    /// How many longs `size` entries need at `bits` per entry.
    fn longs_needed(bits: usize, size: usize) -> (r: usize)
        requires
            1 <= bits <= 32,
            size <= 0x100000,
        ensures
            r == spec_longs_for(bits as nat, size as nat),
    {
        let vpl = 64 / bits;
        proof {
            lemma_vpl_bounds(bits as nat);
        }
        (size + vpl - 1) / vpl
    }

    /// A zeroed storage of `size` entries at `bits` per entry.
    pub fn new(bits: usize, size: usize) -> (r: BitStorage)
        requires
            1 <= bits <= 32,
            size <= 0x100000,
        ensures
            r.wf(),
            r.spec_size() == size,
            r.spec_bits() == bits,
            forall|i: nat| i < size ==> r.spec_entry(i) == 0,
    {
        let longs = Self::longs_needed(bits, size);
        let mut data: Vec<u64> = Vec::new();
        while data.len() < longs
            invariant
                data.len() <= longs,
                forall|k: int| 0 <= k < data.len() ==> data[k] == 0u64,
            decreases longs - data.len(),
        {
            data.push(0);
        }
        let r = BitStorage { data, bits, size };
        proof {
            assert forall|i: nat| i < size implies r.spec_entry(i) == 0 by {
                let vpl = spec_values_per_long(bits as nat);
                lemma_vpl_bounds(bits as nat);
                lemma_entry_word_in_range(i, vpl, size as nat);
                lemma_offset_fits(i % vpl, bits as nat);
                let off = ((i % vpl) * (bits as nat)) as u64;
                assert((0u64 >> off) & Self::spec_mask(bits as nat) == 0) by (bit_vector);
            }
        }
        r
    }

    /// The entry at `index`.
    pub fn get(&self, index: usize) -> (r: u64)
        requires
            self.wf(),
            index < self.spec_size(),
        ensures
            r == self.spec_entry(index as nat),
            r <= Self::spec_mask(self.spec_bits()),
    {
        let vpl = 64 / self.bits;
        proof {
            lemma_vpl_bounds(self.bits as nat);
            lemma_entry_word_in_range(index as nat, vpl as nat, self.size as nat);
            lemma_offset_fits(index as nat % (vpl as nat), self.bits as nat);
        }
        let word = self.data[index / vpl];
        let off = ((index % vpl) * self.bits) as u64;
        proof {
            let b = self.bits as u64;
            assert(1u64 << b >= 1) by (bit_vector)
                requires 1u64 <= b <= 32u64;
        }
        let mask = (1u64 << (self.bits as u64)) - 1;
        let r = (word >> off) & mask;
        proof {
            let b = self.bits as u64;
            assert((word >> off) & (((1u64 << b) - 1) as u64) <= ((1u64 << b) - 1) as u64)
                by (bit_vector);
        }
        r
    }

    /// Write `value` at `index`; every other entry keeps its value.
    pub fn set(&mut self, index: usize, value: u64)
        requires
            old(self).wf(),
            index < old(self).spec_size(),
            value <= Self::spec_mask(old(self).spec_bits()),
        ensures
            final(self).wf(),
            final(self).spec_size() == old(self).spec_size(),
            final(self).spec_bits() == old(self).spec_bits(),
            forall|i: nat| i < old(self).spec_size() ==> final(self).spec_entry(i) == (
                if i == index { value } else { old(self).spec_entry(i) }),
    {
        let vpl = 64 / self.bits;
        proof {
            lemma_vpl_bounds(self.bits as nat);
            lemma_entry_word_in_range(index as nat, vpl as nat, self.size as nat);
            lemma_offset_fits(index as nat % (vpl as nat), self.bits as nat);
            let b = self.bits as u64;
            assert(1u64 << b >= 1) by (bit_vector)
                requires 1u64 <= b <= 32u64;
        }
        let w = index / vpl;
        let off = ((index % vpl) * self.bits) as u64;
        let mask = (1u64 << (self.bits as u64)) - 1;
        let old_word = self.data[w];
        let new_word = (old_word & !(mask << off)) | (value << off);
        self.data.set(w, new_word);
        proof {
            let b = self.bits as u64;
            let vpl_n = vpl as nat;
            assert forall|i: nat| i < old(self).spec_size() implies final(self).spec_entry(i)
                == (if i == index { value } else { old(self).spec_entry(i) }) by {
                lemma_entry_word_in_range(i, vpl_n, self.size as nat);
                lemma_offset_fits(i % vpl_n, self.bits as nat);
                let off2 = ((i % vpl_n) * (self.bits as nat)) as u64;
                if i / vpl_n == w as nat {
                    if i == index {
                        assert(off2 == off);
                        assert((((old_word & !((((1u64 << b) - 1) as u64) << off))
                            | (value << off)) >> off) & (((1u64 << b) - 1) as u64) == value)
                            by (bit_vector)
                            requires
                                1u64 <= b <= 32u64,
                                off + b <= 64u64,
                                value <= ((1u64 << b) - 1) as u64;
                    } else {
                        assert(i % vpl_n != index as nat % vpl_n) by {
                            if i % vpl_n == index as nat % vpl_n {
                                lemma_same_slot(i, index as nat, vpl_n);
                            }
                        }
                        lemma_offsets_disjoint(i % vpl_n, index as nat % vpl_n,
                            self.bits as nat);
                        assert((((old_word & !((((1u64 << b) - 1) as u64) << off))
                            | (value << off)) >> off2) & (((1u64 << b) - 1) as u64)
                            == (old_word >> off2) & (((1u64 << b) - 1) as u64))
                            by (bit_vector)
                            requires
                                1u64 <= b <= 32u64,
                                off + b <= 64u64,
                                off2 + b <= 64u64,
                                value <= ((1u64 << b) - 1) as u64,
                                off + b <= off2 || off2 + b <= off;
                    }
                } else {
                    assert(self.data[(i / vpl_n) as int] == old(self).data[(i / vpl_n) as int]);
                }
            }
        }
    }
}

/// The bit width of direct (palette-free) storage: wide enough for every
/// global block-state id.
pub const DIRECT_BITS: usize = 15;

/// The bit widths a block section may use: none (a single value), four to
/// eight (an id table), or the direct width.
pub open spec fn spec_allowed_bits(b: nat) -> bool {
    b == 0 || (4 <= b <= 8) || b == 15
}

/// The smallest allowed bit width that can address `n` palette ids.
pub open spec fn spec_bits_for(n: nat) -> nat {
    if n <= 1 {
        0
    } else if n <= 16 {
        4
    } else if n <= 32 {
        5
    } else if n <= 64 {
        6
    } else if n <= 128 {
        7
    } else if n <= 256 {
        8
    } else {
        15
    }
}

/// How many ids a width can address.
pub open spec fn spec_bits_capacity(b: nat) -> nat {
    if b == 0 {
        1
    } else {
        (1u64 << b) as nat
    }
}

/// The capacities of the allowed widths, written out.
pub proof fn lemma_capacity_constants()
    ensures
        spec_bits_capacity(4) == 16,
        spec_bits_capacity(5) == 32,
        spec_bits_capacity(6) == 64,
        spec_bits_capacity(7) == 128,
        spec_bits_capacity(8) == 256,
        spec_bits_capacity(15) == 32768,
        BitStorage::spec_mask(4) == 15,
        BitStorage::spec_mask(5) == 31,
        BitStorage::spec_mask(6) == 63,
        BitStorage::spec_mask(7) == 127,
        BitStorage::spec_mask(8) == 255,
        BitStorage::spec_mask(15) == 32767,
{
    assert((1u64 << 4u64) == 16 && (1u64 << 5u64) == 32 && (1u64 << 6u64) == 64
        && (1u64 << 7u64) == 128 && (1u64 << 8u64) == 256 && (1u64 << 15u64) == 32768)
        by (bit_vector);
}

/// The chosen width is allowed, addresses all `n` ids, and no smaller
/// allowed width does.
pub proof fn lemma_bits_for_minimal(n: nat)
    requires
        n <= 0x8000,
    ensures
        spec_allowed_bits(spec_bits_for(n)),
        n <= spec_bits_capacity(spec_bits_for(n)),
        forall|b: nat| spec_allowed_bits(b) && b < spec_bits_for(n)
            ==> spec_bits_capacity(b) < n,
{
    lemma_capacity_constants();
    assert forall|b: nat| spec_allowed_bits(b) && b < spec_bits_for(n)
        implies spec_bits_capacity(b) < n by {
        lemma_capacity_constants();
    }
}

/// The smallest allowed width addressing `n + 1` ids.
fn bits_for(n: usize) -> (r: usize)
    ensures
        r == spec_bits_for(n as nat),
{
    if n <= 1 {
        0
    } else if n <= 16 {
        4
    } else if n <= 32 {
        5
    } else if n <= 64 {
        6
    } else if n <= 128 {
        7
    } else if n <= 256 {
        8
    } else {
        15
    }
}

impl BitStorage {
    /// The number of entries.
    pub fn size(&self) -> (r: usize)
        ensures
            r == self.spec_size(),
    {
        self.size
    }

    /// Bits per entry.
    pub fn bits(&self) -> (r: usize)
        ensures
            r == self.spec_bits(),
    {
        self.bits
    }
}

/// A paletted array of global ids: one id for a whole volume, a small id
/// table with bit-packed indices into it, or global ids packed directly.
#[derive(Debug, Clone)]
pub enum PalettedContainer {
    Single { id: u32, size: usize },
    Paletted { palette: Vec<u32>, storage: BitStorage },
    Global { storage: BitStorage },
}

impl PalettedContainer {
    /// The number of entries.
    pub open spec fn spec_size(&self) -> nat {
        match self {
            PalettedContainer::Single { size, .. } => *size as nat,
            PalettedContainer::Paletted { storage, .. } => storage.spec_size(),
            PalettedContainer::Global { storage } => storage.spec_size(),
        }
    }

    /// The bits each packed entry takes.
    pub open spec fn spec_bits_per_entry(&self) -> nat {
        match self {
            PalettedContainer::Single { .. } => 0,
            PalettedContainer::Paletted { storage, .. } => storage.spec_bits(),
            PalettedContainer::Global { .. } => DIRECT_BITS as nat,
        }
    }

    /// The global id stored at `i`.
    pub open spec fn spec_id_at(&self, i: nat) -> u32 {
        match self {
            PalettedContainer::Single { id, .. } => *id,
            PalettedContainer::Paletted { palette, storage } => palette[storage.spec_entry(
                i) as int],
            PalettedContainer::Global { storage } => storage.spec_entry(i) as u32,
        }
    }

    /// Structurally sound, whatever width the data came with: the storage
    /// matches the size, every id fits the global table, packed entries
    /// index into the id table, and the width is one the format allows.
    pub open spec fn wf(&self) -> bool {
        &&& 1 <= self.spec_size() <= 4096
        &&& match self {
            PalettedContainer::Single { id, .. } => *id < 0x8000,
            PalettedContainer::Paletted { palette, storage } => {
                &&& storage.wf()
                &&& 1 <= storage.spec_bits() <= 8
                &&& 1 <= palette.len() <= spec_bits_capacity(storage.spec_bits())
                &&& forall|k: int| 0 <= k < palette.len() ==> #[trigger] palette[k] < 0x8000
                &&& forall|i: nat| i < storage.spec_size() ==> #[trigger] storage.spec_entry(
                    i) < palette.len()
            },
            PalettedContainer::Global { storage } => {
                storage.wf() && storage.spec_bits() == DIRECT_BITS as nat
            },
        }
    }

    /// Tight on top of sound: the id table has no duplicates and the width
    /// is the smallest allowed one that addresses it. Sections built here
    /// are tight; sections read off the wire keep the width the server
    /// chose.
    pub open spec fn tight(&self) -> bool {
        match self {
            PalettedContainer::Single { .. } => true,
            PalettedContainer::Paletted { palette, storage } => {
                &&& storage.spec_bits() == spec_bits_for(palette.len() as nat)
                &&& forall|a: int, b: int| 0 <= a < b < palette.len()
                    ==> palette[a] != palette[b]
            },
            PalettedContainer::Global { .. } => true,
        }
    }

    /// A volume of `size` entries all holding `id`.
    pub fn new_single(size: usize, id: u32) -> (r: PalettedContainer)
        requires
            1 <= size <= 4096,
            id < 0x8000,
        ensures
            r.wf(),
            r.tight(),
            r.spec_size() == size,
            r.spec_bits_per_entry() == 0,
            forall|i: nat| i < size ==> r.spec_id_at(i) == id,
    {
        PalettedContainer::Single { id, size }
    }

    /// The bits each packed entry takes.
    pub fn bits_per_entry(&self) -> (r: usize)
        ensures
            r == self.spec_bits_per_entry(),
    {
        match self {
            PalettedContainer::Single { .. } => 0,
            PalettedContainer::Paletted { storage, .. } => storage.bits(),
            PalettedContainer::Global { .. } => DIRECT_BITS,
        }
    }

    /// The id at `index`.
    pub fn get(&self, index: usize) -> (r: u32)
        requires
            self.wf(),
            index < self.spec_size(),
        ensures
            r == self.spec_id_at(index as nat),
            r < 0x8000,
    {
        match self {
            PalettedContainer::Single { id, .. } => *id,
            PalettedContainer::Paletted { palette, storage } => {
                let entry = storage.get(index);
                palette[entry as usize]
            },
            PalettedContainer::Global { storage } => {
                proof {
                    lemma_capacity_constants();
                }
                storage.get(index) as u32
            },
        }
    }

    /// Store `id` at `index`; every other entry keeps its id. A new id
    /// grows the table, and the width grows with it exactly when the table
    /// no longer fits: first to the next allowed width, at more than 256
    /// ids to direct storage.
    pub fn set(&mut self, index: usize, id: u32)
        requires
            old(self).wf(),
            index < old(self).spec_size(),
            id < 0x8000,
        ensures
            final(self).wf(),
            final(self).spec_size() == old(self).spec_size(),
            old(self).tight() ==> final(self).tight(),
            forall|i: nat| i < old(self).spec_size() ==> final(self).spec_id_at(i) == (
                if i == index { id } else { old(self).spec_id_at(i) }),
    {
        proof {
            lemma_capacity_constants();
        }
        match self {
            PalettedContainer::Single { id: cur, size } => {
                if *cur == id {
                    return;
                }
                let cur_v: u32 = *cur;
                let size_v: usize = *size;
                let mut palette: Vec<u32> = Vec::new();
                palette.push(cur_v);
                palette.push(id);
                let mut storage = BitStorage::new(4, size_v);
                storage.set(index, 1);
                *self = PalettedContainer::Paletted { palette, storage };
                proof {
                    assert(spec_bits_for(2) == 4);
                }
            },
            PalettedContainer::Paletted { palette, storage } => {
                let found = find_index(palette, id);
                match found {
                    Some(j) => {
                        proof {
                            lemma_mask_capacity(storage.spec_bits());
                        }
                        storage.set(index, j as u64);
                    },
                    None => {
                        proof {
                            lemma_capacity_monotone(storage.spec_bits(), 8);
                        }
                        let len = palette.len();
                        let needed = bits_for(len + 1);
                        proof {
                            lemma_bits_for_minimal((len + 1) as nat);
                        }
                        if needed <= storage.bits() {
                            proof {
                                lemma_capacity_monotone(needed as nat, storage.spec_bits());
                                lemma_mask_capacity(storage.spec_bits());
                            }
                            palette.push(id);
                            storage.set(index, len as u64);
                        } else if needed <= 8 {
                            proof {
                                lemma_mask_capacity(needed as nat);
                            }
                            let mut ns = resized(storage, needed);
                            palette.push(id);
                            ns.set(index, len as u64);
                            *storage = ns;
                        } else {
                            let mut ns = to_global(palette, storage);
                            ns.set(index, id as u64);
                            *self = PalettedContainer::Global { storage: ns };
                        }
                    },
                }
            },
            PalettedContainer::Global { storage } => {
                storage.set(index, id as u64);
            },
        }
    }
}

/// The entry raw wire longs encode at `i`, at `bits` per entry.
pub open spec fn spec_wire_entry(longs: Seq<u64>, bits: nat, i: nat) -> u64 {
    let vpl = spec_values_per_long(bits);
    let off = ((i % vpl) * bits) as u64;
    ((longs[(i / vpl) as int] >> off) & BitStorage::spec_mask(bits)) as u64
}

/// Whether wire parts make a sound container of `size` entries: an
/// allowed width, an id table that fits it with valid global ids, the
/// right number of longs, and entries that index the table.
pub open spec fn spec_wire_parts_ok(bits: nat, ids: Seq<u32>, longs: Seq<u64>, size: nat)
    -> bool {
    if bits == 0 {
        ids.len() == 1 && ids[0] < 0x8000
    } else if bits <= 8 {
        &&& 1 <= ids.len() <= spec_bits_capacity(bits)
        &&& forall|k: int| 0 <= k < ids.len() ==> #[trigger] ids[k] < 0x8000
        &&& longs.len() == spec_longs_for(bits, size)
        &&& forall|i: nat| i < size ==> #[trigger] spec_wire_entry(longs, bits, i)
            < ids.len()
    } else if bits == DIRECT_BITS {
        longs.len() == spec_longs_for(DIRECT_BITS as nat, size)
    } else {
        false
    }
}

/// The id wire parts hold at entry `i` of a sound container.
pub open spec fn spec_wire_id_at(bits: nat, ids: Seq<u32>, longs: Seq<u64>, i: nat) -> u32 {
    if bits == 0 {
        ids[0]
    } else if bits <= 8 {
        ids[spec_wire_entry(longs, bits, i) as int]
    } else {
        spec_wire_entry(longs, DIRECT_BITS as nat, i) as u32
    }
}

impl BitStorage {
    /// A storage over longs read off the wire, taken as they are; refused
    /// exactly when the long count does not match the size.
    pub fn from_longs(data: Vec<u64>, bits: usize, size: usize) -> (r: Option<BitStorage>)
        requires
            1 <= bits <= 32,
            size <= 0x100000,
        ensures
            r is Some <==> data@.len() == spec_longs_for(bits as nat, size as nat),
            match r {
                Some(s) => {
                    &&& s.wf() && s.spec_bits() == bits && s.spec_size() == size
                    &&& forall|i: nat| i < size ==> #[trigger] s.spec_entry(i)
                        == spec_wire_entry(data@, bits as nat, i)
                },
                None => true,
            },
    {
        let longs = Self::longs_needed(bits, size);
        if data.len() != longs {
            return None;
        }
        Some(BitStorage { data, bits, size })
    }
}

impl PalettedContainer {
    /// A container assembled from wire parts, accepted exactly when they
    /// are sound: an allowed width, an id table that fits it with valid
    /// global ids, the matching number of longs, and entries that index
    /// the table. The accepted container holds exactly the ids the parts
    /// encode.
    pub fn from_wire(bits: usize, palette: Vec<u32>, longs: Vec<u64>, size: usize) -> (r:
        Option<PalettedContainer>)
        requires
            1 <= size <= 4096,
        ensures
            r is Some <==> spec_wire_parts_ok(bits as nat, palette@, longs@, size as nat),
            match r {
                Some(c) => {
                    &&& c.wf() && c.spec_size() == size
                    &&& forall|i: nat| i < size ==> #[trigger] c.spec_id_at(i)
                        == spec_wire_id_at(bits as nat, palette@, longs@, i)
                },
                None => true,
            },
    {
        proof {
            lemma_capacity_constants();
        }
        if bits == 0 {
            if palette.len() != 1 {
                return None;
            }
            let id = palette[0];
            if id >= 0x8000 {
                return None;
            }
            proof {
                assert(spec_wire_parts_ok(bits as nat, palette@, longs@, size as nat));
            }
            Some(PalettedContainer::new_single(size, id))
        } else if bits <= 8 {
            if palette.len() < 1 {
                return None;
            }
            let cap = 1u64 << (bits as u64);
            if palette.len() as u64 > cap {
                return None;
            }
            let mut k: usize = 0;
            while k < palette.len()
                invariant
                    1 <= bits <= 8,
                    k <= palette.len(),
                    forall|m: int| 0 <= m < k ==> #[trigger] palette[m] < 0x8000,
                decreases palette.len() - k,
            {
                if palette[k] >= 0x8000 {
                    return None;
                }
                k = k + 1;
            }
            let ghost wire_longs = longs@;
            let storage = match BitStorage::from_longs(longs, bits, size) {
                Some(s) => s,
                None => {
                    return None;
                },
            };
            let mut i: usize = 0;
            while i < size
                invariant
                    1 <= bits <= 8,
                    1 <= size <= 4096,
                    i <= size,
                    wire_longs == longs@,
                    storage.wf(),
                    storage.spec_size() == size,
                    1 <= palette@.len() <= spec_bits_capacity(bits as nat),
                    forall|m: int| 0 <= m < palette@.len() ==> #[trigger] palette[m]
                        < 0x8000,
                    wire_longs.len() == spec_longs_for(bits as nat, size as nat),
                    forall|m: nat| m < size ==> #[trigger] storage.spec_entry(m)
                        == spec_wire_entry(wire_longs, bits as nat, m),
                    forall|m: nat| m < i ==> #[trigger] storage.spec_entry(m)
                        < palette.len(),
                decreases size - i,
            {
                if storage.get(i) >= palette.len() as u64 {
                    proof {
                        assert(spec_wire_entry(wire_longs, bits as nat, i as nat)
                            >= palette@.len());
                    }
                    return None;
                }
                i = i + 1;
            }
            proof {
                assert forall|m: nat| m < size implies #[trigger] spec_wire_entry(
                    wire_longs, bits as nat, m) < palette@.len() by {
                    assert(storage.spec_entry(m) == spec_wire_entry(wire_longs,
                        bits as nat, m));
                    assert(storage.spec_entry(m) < palette.len());
                }
                assert(spec_wire_parts_ok(bits as nat, palette@, longs@, size as nat));
            }
            Some(PalettedContainer::Paletted { palette, storage })
        } else if bits == DIRECT_BITS {
            let storage = match BitStorage::from_longs(longs, bits, size) {
                Some(s) => s,
                None => {
                    return None;
                },
            };
            proof {
                assert(spec_wire_parts_ok(bits as nat, palette@, longs@, size as nat));
            }
            Some(PalettedContainer::Global { storage })
        } else {
            proof {
                assert(!spec_wire_parts_ok(bits as nat, palette@, longs@, size as nat));
            }
            None
        }
    }
}

/// The first index of `id` in the table, if it is there.
fn find_index(palette: &Vec<u32>, id: u32) -> (r: Option<usize>)
    ensures
        match r {
            Some(j) => j < palette.len() && palette[j as int] == id,
            None => forall|k: int| 0 <= k < palette.len() ==> palette[k] != id,
        },
{
    let mut j: usize = 0;
    while j < palette.len()
        invariant
            j <= palette.len(),
            forall|k: int| 0 <= k < j ==> palette[k] != id,
        decreases palette.len() - j,
    {
        if palette[j] == id {
            return Some(j);
        }
        j = j + 1;
    }
    None
}

/// A wider width addresses at least as many ids.
proof fn lemma_capacity_monotone(b1: nat, b2: nat)
    requires
        1 <= b1 <= b2 <= 32,
    ensures
        spec_bits_capacity(b1) <= spec_bits_capacity(b2),
{
    let x = b1 as u64;
    let y = b2 as u64;
    assert((1u64 << x) <= (1u64 << y)) by (bit_vector)
        requires 1u64 <= x <= y <= 32u64;
}

/// A width's mask is one below its capacity.
proof fn lemma_mask_capacity(b: nat)
    requires
        1 <= b <= 32,
    ensures
        BitStorage::spec_mask(b) as nat + 1 == spec_bits_capacity(b),
{
    let x = b as u64;
    assert(1u64 <= (1u64 << x)) by (bit_vector)
        requires 1u64 <= x <= 32u64;
}

/// The same entries, repacked at a wider width.
fn resized(storage: &BitStorage, new_bits: usize) -> (r: BitStorage)
    requires
        storage.wf(),
        storage.spec_bits() <= new_bits,
        1 <= new_bits <= 32,
    ensures
        r.wf(),
        r.spec_bits() == new_bits,
        r.spec_size() == storage.spec_size(),
        forall|i: nat| i < storage.spec_size() ==> r.spec_entry(i) == storage.spec_entry(i),
{
    let mut r = BitStorage::new(new_bits, storage.size());
    let mut i: usize = 0;
    while i < storage.size()
        invariant
            i <= storage.spec_size(),
            storage.wf(),
            storage.spec_bits() <= new_bits <= 32,
            r.wf(),
            r.spec_bits() == new_bits,
            r.spec_size() == storage.spec_size(),
            forall|k: nat| k < i ==> r.spec_entry(k) == storage.spec_entry(k),
        decreases storage.spec_size() - i,
    {
        let v = storage.get(i);
        proof {
            let b1 = storage.spec_bits() as u64;
            let b2 = new_bits as u64;
            assert(((1u64 << b1) - 1) as u64 <= ((1u64 << b2) - 1) as u64) by (bit_vector)
                requires 1u64 <= b1 <= b2 <= 32u64;
        }
        r.set(i, v);
        i = i + 1;
    }
    r
}

/// The entries mapped through the id table, at the direct width.
fn to_global(palette: &Vec<u32>, storage: &BitStorage) -> (r: BitStorage)
    requires
        storage.wf(),
        1 <= storage.spec_size() <= 4096,
        forall|k: int| 0 <= k < palette.len() ==> #[trigger] palette[k] < 0x8000,
        forall|i: nat| i < storage.spec_size() ==> #[trigger] storage.spec_entry(i)
            < palette.len(),
    ensures
        r.wf(),
        r.spec_bits() == DIRECT_BITS as nat,
        r.spec_size() == storage.spec_size(),
        forall|i: nat| i < storage.spec_size() ==> r.spec_entry(i) == palette[
            storage.spec_entry(i) as int] as u64,
{
    proof {
        lemma_capacity_constants();
    }
    let mut r = BitStorage::new(DIRECT_BITS, storage.size());
    let mut i: usize = 0;
    while i < storage.size()
        invariant
            i <= storage.spec_size(),
            storage.wf(),
            forall|k: int| 0 <= k < palette.len() ==> #[trigger] palette[k] < 0x8000,
            forall|k: nat| k < storage.spec_size() ==> #[trigger] storage.spec_entry(k)
                < palette.len(),
            r.wf(),
            r.spec_bits() == DIRECT_BITS as nat,
            r.spec_size() == storage.spec_size(),
            forall|k: nat| k < i ==> r.spec_entry(k) == palette[
                storage.spec_entry(k) as int] as u64,
        decreases storage.spec_size() - i,
    {
        let e = storage.get(i);
        let v = palette[e as usize];
        proof {
            lemma_capacity_constants();
        }
        r.set(i, v as u64);
        i = i + 1;
    }
    r
}

/// At a usable bit width, each long holds between one and sixty-four
/// entries.
proof fn lemma_vpl_bounds(bits: nat)
    requires
        1 <= bits <= 32,
    ensures
        1 <= spec_values_per_long(bits) <= 64,
{
    assert(1 <= 64nat / bits <= 64) by (nonlinear_arith)
        requires 1 <= bits <= 32;
}

/// An entry's long index is within the data; its slot is within a long.
proof fn lemma_entry_word_in_range(i: nat, vpl: nat, size: nat)
    requires
        vpl >= 1,
        i < size,
    ensures
        i / vpl < (size + vpl - 1) / (vpl as int),
        i % vpl < vpl,
{
    assert(i / vpl < (size + vpl - 1) / (vpl as int) && i % vpl < vpl) by (nonlinear_arith)
        requires vpl >= 1, i < size;
}

/// A slot's bit offset leaves room for the entry inside the long.
proof fn lemma_offset_fits(slot: nat, bits: nat)
    requires
        1 <= bits <= 32,
        slot < 64nat / bits,
    ensures
        slot * bits + bits <= 64,
{
    assert(slot * bits + bits <= 64) by (nonlinear_arith)
        requires 1 <= bits <= 32, slot < 64nat / bits;
}

/// Two entries of one long at the same slot are the same entry.
proof fn lemma_same_slot(i: nat, j: nat, vpl: nat)
    requires
        vpl >= 1,
        i % vpl == j % vpl,
        i / vpl == j / vpl,
    ensures
        i == j,
{
    assert(i == (i / vpl) * vpl + (i % vpl) && j == (j / vpl) * vpl + (j % vpl))
        by (nonlinear_arith)
        requires vpl >= 1;
}

/// Different slots of one long occupy disjoint bit ranges.
proof fn lemma_offsets_disjoint(a: nat, b: nat, bits: nat)
    requires
        bits >= 1,
        a != b,
    ensures
        a * bits + bits <= b * bits || b * bits + bits <= a * bits,
{
    assert(a * bits + bits <= b * bits || b * bits + bits <= a * bits) by (nonlinear_arith)
        requires bits >= 1, a != b;
}

} // verus!
