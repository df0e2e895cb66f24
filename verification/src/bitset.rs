//! A growable set of bits packed into 64-bit words, in the style of Java's
//! `BitSet`. The physics code uses it as the backing store for voxel-shape
//! occupancy rasters.

use crate::codec::{
    read_u64_be, read_varint, spec_read_varint, spec_u64_be, spec_u64_be_bytes,
    spec_varint, spec_varint_too_long, write_u64_be, write_varint, BufReadError,
};
use vstd::prelude::*;

verus! {

/// A list of bits, packed into `u64` words.
#[derive(Debug, Clone)]
pub struct BitSet {
    data: Vec<u64>,
}

impl BitSet {
    /// How many bits this set can address. Always a multiple of 64.
    pub closed spec fn capacity(&self) -> nat {
        (self.data.len() * 64) as nat
    }

    /// Whether bit `i` is set.
    pub closed spec fn spec_bit(&self, i: nat) -> bool {
        i < self.capacity() && ((self.data[(i / 64) as int] >> ((i % 64) as u64)) & 1u64) == 1u64
    }

    /// A set whose capacity is `size` rounded up to a whole number of words,
    /// with every bit clear.
    pub fn new(size: usize) -> (r: BitSet)
        requires
            size <= usize::MAX - 63,
        ensures
            r.capacity() == ((size + 63) / 64) * 64,
            forall|i: nat| !r.spec_bit(i),
    {
        let words: usize = (size + 63) / 64;
        let mut data: Vec<u64> = Vec::new();
        while data.len() < words
            invariant
                data.len() <= words,
                forall|k: int| 0 <= k < data.len() ==> data[k] == 0u64,
            decreases words - data.len(),
        {
            data.push(0);
        }
        let r = BitSet { data };
        proof {
            assert forall|i: nat| !r.spec_bit(i) by {
                if i < r.capacity() {
                    assert(i / 64 < r.data.len()) by (nonlinear_arith)
                        requires i < r.data.len() * 64;
                    let jj = (i % 64) as u64;
                    assert((0u64 >> jj) & 1u64 == 0u64) by (bit_vector);
                }
            }
        }
        r
    }

    /// Whether bit `index` is set.
    pub fn index(&self, index: usize) -> (r: bool)
        requires
            index < self.capacity(),
        ensures
            r == self.spec_bit(index as nat),
    {
        proof {
            assert(index / 64 < self.data.len()) by (nonlinear_arith)
                requires index < self.data.len() * 64;
        }
        let r = (self.data[index / 64] & (1u64 << ((index % 64) as u64))) != 0;
        proof {
            let w = self.data[(index as int) / 64];
            let j = (index % 64) as u64;
            assert((w & (1u64 << j)) != 0 <==> ((w >> j) & 1u64) == 1u64) by (bit_vector)
                requires j < 64u64;
        }
        r
    }

    /// Set bit `bit_index`; every other bit keeps its value.
    pub fn set(&mut self, bit_index: usize)
        requires
            bit_index < old(self).capacity(),
        ensures
            final(self).capacity() == old(self).capacity(),
            forall|i: nat| i < old(self).capacity() ==> final(self).spec_bit(i) == (
                i == bit_index || old(self).spec_bit(i)),
    {
        proof {
            assert(bit_index / 64 < self.data.len()) by (nonlinear_arith)
                requires bit_index < self.data.len() * 64;
        }
        let w = bit_index / 64;
        let j = (bit_index % 64) as u64;
        let updated = self.data[w] | (1u64 << j);
        self.data.set(w, updated);
        proof {
            let words = self.data.len() as nat;
            let old_word = old(self).data[w as int];
            assert forall|i: nat| i < old(self).capacity() implies self.spec_bit(i) == (
                i == bit_index || old(self).spec_bit(i)) by {
                Self::lemma_word_of_bit(i, words);
                Self::lemma_word_of_bit(bit_index as nat, words);
                let jj = (i % 64) as u64;
                if i / 64 == w as nat {
                    assert(self.data[(i / 64) as int] == (old_word | (1u64 << j)));
                    assert(((old_word | (1u64 << j)) >> jj) & 1u64
                        == (if jj == j { 1u64 } else { (old_word >> jj) & 1u64 })) by (bit_vector)
                        requires j < 64u64, jj < 64u64;
                    assert(i == bit_index <==> jj == j);
                } else {
                    assert(self.data[(i / 64) as int] == old(self).data[(i / 64) as int]);
                }
            }
        }
    }

    /// The word that bit `bit_index` lives in.
    fn word_index(&self, bit_index: usize) -> (r: usize)
        ensures
            r == bit_index as nat / 64,
    {
        proof {
            assert(bit_index >> 6u64 == bit_index / 64) by (bit_vector);
        }
        bit_index >> 6
    }

    /// The range `[from_index, to_index)` must be well formed; what was a
    /// runtime assertion stands here as a precondition.
    fn check_range(&self, from_index: usize, to_index: usize)
        requires
            from_index <= to_index,
    {
    }

    /// Clear every bit in `[from_index, to_index)`; bits outside the range
    /// keep their value.
    pub fn clear(&mut self, from_index: usize, to_index: usize)
        requires
            from_index <= to_index,
        ensures
            final(self).capacity() == old(self).capacity(),
            forall|i: nat| i < old(self).capacity() ==> final(self).spec_bit(i) == (
                if from_index <= i && i < to_index { false } else { old(self).spec_bit(i) }),
    {
        self.check_range(from_index, to_index);

        if from_index == to_index {
            return;
        }

        let start_word_index = self.word_index(from_index);
        if start_word_index >= self.data.len() {
            proof {
                assert(from_index as nat >= self.capacity()) by (nonlinear_arith)
                    requires
                        from_index as nat / 64 >= self.data.len(),
                        self.capacity() == self.data.len() * 64;
            }
            return;
        }

        let ghost words = self.data.len() as nat;
        let mut end_word_index = self.word_index(to_index - 1);
        let last_word_mask: u64;
        let ghost to_eff: nat;
        if end_word_index >= self.data.len() {
            end_word_index = self.data.len() - 1;
            last_word_mask = u64::MAX;
            proof {
                to_eff = self.capacity();
            }
        } else {
            let t = (to_index % 64) as u64;
            last_word_mask = if t == 0 {
                u64::MAX
            } else {
                u64::MAX >> ((64 - t) as u64)
            };
            proof {
                to_eff = to_index as nat;
            }
        }
        let f = (from_index % 64) as u64;
        let first_word_mask = u64::MAX << f;
        let ghost t2: u64 = if to_eff % 64 == 0 { 64u64 } else { (to_eff % 64) as u64 };

        proof {
            // `to_eff` is in (from_index, capacity], addresses `end_word_index`
            // as the word of its last bit, and `last_word_mask` keeps exactly
            // the bits below `t2` of that word.
            Self::lemma_div_mod_unique(words * 64, words, 0);
            if to_eff == self.capacity() {
                Self::lemma_div_mod_unique((words * 64 - 1) as nat, (words - 1) as nat, 63);
            }
            Self::lemma_word_of_bit((to_eff - 1) as nat, words);
            Self::lemma_word_of_bit(from_index as nat, words);
            if to_eff % 64 == 0 {
                Self::lemma_div_mod_unique((to_eff - 1) as nat,
                    (to_eff / 64 - 1) as nat, 63);
            } else {
                Self::lemma_div_mod_unique((to_eff - 1) as nat, to_eff / 64,
                    (to_eff % 64 - 1) as nat);
            }
            assert(end_word_index == (to_eff - 1) as nat / 64);
            assert((to_eff - 1) as nat % 64 + 1 == t2);
            assert(last_word_mask == (if t2 == 64 { u64::MAX } else {
                u64::MAX >> ((64 - t2) as u64)
            }));
        }

        if start_word_index == end_word_index {
            // Case 1: the range lies within one word.
            let cleared = self.data[start_word_index] & !(first_word_mask & last_word_mask);
            self.data.set(start_word_index, cleared);
            proof {
                let old_word = old(self).data[start_word_index as int];
                assert forall|i: nat| i < old(self).capacity() implies self.spec_bit(i) == (
                    if from_index <= i && i < to_index { false } else {
                        old(self).spec_bit(i)
                    }) by {
                    Self::lemma_word_of_bit(i, words);
                    let jj = (i % 64) as u64;
                    if i / 64 == start_word_index as nat {
                        assert(((old_word & !((u64::MAX << f) & last_word_mask)) >> jj) & 1u64
                            == (if f <= jj && jj < t2 { 0u64 } else { (old_word >> jj) & 1u64 }))
                            by (bit_vector)
                            requires
                                f < 64u64,
                                jj < 64u64,
                                1u64 <= t2 <= 64u64,
                                last_word_mask == (if t2 == 64 { u64::MAX } else {
                                    u64::MAX >> ((64 - t2) as u64)
                                });
                        assert(from_index <= i <==> f <= jj);
                        assert(i < to_eff <==> jj < t2);
                    } else {
                        assert(self.data[(i / 64) as int] == old(self).data[(i / 64) as int]);
                    }
                }
            }
        } else {
            // Case 2: the range spans several words.
            let cleared_first = self.data[start_word_index] & !first_word_mask;
            self.data.set(start_word_index, cleared_first);

            let mut k = start_word_index + 1;
            while k < end_word_index
                invariant
                    start_word_index < k <= end_word_index < self.data.len(),
                    self.data.len() == old(self).data.len(),
                    self.data[start_word_index as int] == old(self).data[
                        start_word_index as int] & !first_word_mask,
                    forall|m: int| start_word_index < m < k ==> self.data[m] == 0u64,
                    forall|m: int| 0 <= m < self.data.len()
                        && !(start_word_index <= m < k) ==> self.data[m] == old(self).data[m],
                decreases end_word_index - k,
            {
                self.data.set(k, 0);
                k += 1;
            }

            let cleared_last = self.data[end_word_index] & !last_word_mask;
            self.data.set(end_word_index, cleared_last);

            proof {
                let start = start_word_index as nat;
                let end = end_word_index as nat;
                assert forall|i: nat| i < old(self).capacity() implies self.spec_bit(i) == (
                    if from_index <= i && i < to_index { false } else {
                        old(self).spec_bit(i)
                    }) by {
                    Self::lemma_word_of_bit(i, words);
                    let jj = (i % 64) as u64;
                    let wi = i / 64;
                    if wi == start {
                        let old_word = old(self).data[wi as int];
                        assert(((old_word & !(u64::MAX << f)) >> jj) & 1u64
                            == (if f <= jj { 0u64 } else { (old_word >> jj) & 1u64 }))
                            by (bit_vector)
                            requires f < 64u64, jj < 64u64;
                        assert(from_index <= i <==> f <= jj);
                        assert(i < to_eff);
                    } else if start < wi && wi < end {
                        assert(self.data[wi as int] == 0u64);
                        assert((0u64 >> jj) & 1u64 == 0u64) by (bit_vector);
                        assert(from_index <= i && i < to_eff);
                    } else if wi == end {
                        let old_word = old(self).data[wi as int];
                        assert(self.data[wi as int] == old_word & !last_word_mask);
                        assert(((old_word & !last_word_mask) >> jj) & 1u64
                            == (if jj < t2 { 0u64 } else { (old_word >> jj) & 1u64 }))
                            by (bit_vector)
                            requires
                                jj < 64u64,
                                1u64 <= t2 <= 64u64,
                                last_word_mask == (if t2 == 64 { u64::MAX } else {
                                    u64::MAX >> ((64 - t2) as u64)
                                });
                        assert(from_index <= i);
                        assert(i < to_eff <==> jj < t2);
                    } else {
                        assert(self.data[wi as int] == old(self).data[wi as int]);
                        if wi < start {
                            assert(i < from_index);
                        } else {
                            assert(i >= to_eff);
                        }
                    }
                }
            }
        }
    }

    /// Euclidean decomposition by 64 is unique.
    proof fn lemma_div_mod_unique(x: nat, a: nat, b: nat)
        requires
            x == a * 64 + b,
            b < 64,
        ensures
            a == x / 64,
            b == x % 64,
    {
        assert(a == x / 64 && b == x % 64) by (nonlinear_arith)
            requires x == a * 64 + b, b < 64;
    }

    /// The backing words, lowest-indexed bits first.
    pub closed spec fn spec_words(&self) -> Seq<u64> {
        self.data@
    }

    /// A bit of the set is the indexed bit of its backing word.
    pub proof fn lemma_bit_of_word(&self, i: nat)
        requires
            i < self.capacity(),
        ensures
            i / 64 < self.spec_words().len(),
            self.spec_bit(i) == (((self.spec_words()[(i / 64) as int] >> ((i
                % 64) as u64)) & 1u64) == 1u64),
    {
        Self::lemma_word_of_bit(i, self.data.len() as nat);
    }

    /// Read a bit set as the wire carries it: a VarInt word count, then
    /// each word as eight big-endian bytes, most significant first.
    pub fn read_from(buf: &Vec<u8>, pos: usize) -> (r: Result<(BitSet, usize), BufReadError>)
        requires
            pos <= buf.len(),
        ensures
            match r {
                Ok((set, next)) => match spec_read_varint(buf@, pos as int, 5, 0, 0) {
                    Some((n, s)) => {
                        &&& set.spec_words().len() == n
                        &&& set.capacity() == 64 * n
                        &&& next == s + 8 * n
                        &&& next <= buf.len()
                        &&& forall|k: int| 0 <= k < n ==> set.spec_words()[k]
                            == spec_u64_be(buf@, s + 8 * k)
                    },
                    None => false,
                },
                Err(e) => match spec_read_varint(buf@, pos as int, 5, 0, 0) {
                    None => e == (if spec_varint_too_long(buf@, pos as int) {
                        BufReadError::VarIntTooLong
                    } else {
                        BufReadError::UnexpectedEnd
                    }),
                    Some((n, s)) => e == BufReadError::UnexpectedEnd && (n > 0x7fffffff
                        || s + 8 * n > buf@.len()),
                },
            },
    {
        let (count, s) = match read_varint(buf, pos) {
            Ok(v) => v,
            Err(e) => {
                return Err(e);
            },
        };
        if count < 0 {
            proof {
                assert((count as u32) > 0x7fffffffu32) by (bit_vector)
                    requires
                        count < 0i32,
                ;
            }
            return Err(BufReadError::UnexpectedEnd);
        }
        let count = count as usize;
        if (buf.len() - s) / 8 < count {
            return Err(BufReadError::UnexpectedEnd);
        }
        let mut data: Vec<u64> = Vec::new();
        let mut p: usize = s;
        while data.len() < count
            invariant
                p == s + 8 * data.len(),
                data.len() <= count,
                s + 8 * count <= buf.len(),
                forall|k: int| 0 <= k < data.len() ==> data@[k] == spec_u64_be(buf@, s
                    + 8 * k),
            decreases count - data.len(),
        {
            let (word, p2) = match read_u64_be(buf, p) {
                Ok(v) => v,
                Err(_) => {
                    proof {
                        assert(false);
                    }
                    return Err(BufReadError::UnexpectedEnd);
                },
            };
            data.push(word);
            p = p2;
        }
        Ok((BitSet { data }, p))
    }

    /// Append this set as the wire carries it: a VarInt word count, then
    /// each word as eight big-endian bytes, most significant first.
    pub fn write_into(&self, out: &mut Vec<u8>)
        requires
            self.spec_words().len() <= 0x7fffffff,
        ensures
            final(out)@ == old(out)@ + spec_varint(self.spec_words().len() as u32)
                + spec_words_bytes(self.spec_words()),
    {
        write_varint(out, self.data.len() as i32);
        let ghost head = out@;
        let mut i: usize = 0;
        while i < self.data.len()
            invariant
                i <= self.data.len(),
                head == old(out)@ + spec_varint(self.spec_words().len() as u32),
                out@ =~= head + spec_words_bytes(self.spec_words().subrange(0, i as int)),
                self.spec_words() == self.data@,
            decreases self.data.len() - i,
        {
            write_u64_be(out, self.data[i]);
            proof {
                let pre = self.data@.subrange(0, i + 1);
                assert(pre.drop_last() =~= self.data@.subrange(0, i as int));
                assert(pre.last() == self.data@[i as int]);
                assert(out@ =~= head + spec_words_bytes(pre));
            }
            i = i + 1;
        }
        proof {
            assert(self.data@.subrange(0, self.data@.len() as int) =~= self.data@);
        }
    }

    /// `i / 64` addresses a word of the set whenever `i` is in capacity,
    /// and `i` is recovered from its word and bit offsets.
    proof fn lemma_word_of_bit(i: nat, words: nat)
        requires
            i < words * 64,
        ensures
            i / 64 < words,
            i == (i / 64) * 64 + (i % 64),
            i % 64 < 64,
    {
        assert(i / 64 < words && i == (i / 64) * 64 + (i % 64) && i % 64 < 64)
            by (nonlinear_arith)
            requires i < words * 64;
    }
}

/// The big-endian bytes of each word in order.
pub open spec fn spec_words_bytes(words: Seq<u64>) -> Seq<u8>
    decreases words.len(),
{
    if words.len() == 0 {
        Seq::empty()
    } else {
        spec_words_bytes(words.drop_last()) + spec_u64_be_bytes(words.last())
    }
}

} // verus!
