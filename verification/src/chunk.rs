//! Encoding of chunk data: values packed several to a 64-bit word.

use vstd::arithmetic::power2::{lemma_pow2_adds, lemma_pow2_pos, pow2};
use vstd::prelude::*;

use crate::biome::BiomeId;
use crate::block::{block_code, block_of_code, BlockState};
use crate::block_pos::BlockPos;
use crate::chunk_pos::{
    chunk_coord, chunk_key, chunk_key_of, lemma_chunk_key_injective, lemma_pos_of_key_roundtrip,
    pos_of_key, pos_of_key_exec, ChunkPos,
};
use std::collections::HashMap;
use vstd::std_specs::iter::IteratorSpec;
use crate::paletted_container::{
    encodable, layout_bytes, optimized_layout, ElementBits, Layout, PalettedContainer,
};
use crate::protocol::{be_bytes_u64, write_u64_be};

verus! {

/// How many values of `bits` bits a 64-bit word holds.
pub open spec fn vals_per_word(bits: nat) -> nat {
    64nat / bits
}

/// How many words hold `count` values of `bits` bits: as many whole values
/// as fit go in each word.
pub open spec fn compact_len(count: nat, bits: nat) -> nat {
    let per = vals_per_word(bits);
    count / per + if count % per == 0 {
        0nat
    } else {
        1nat
    }
}

/// The word holding `vals`: value `i` in bits `i * bits` up to
/// `(i + 1) * bits`.
pub open spec fn pack_word(vals: Seq<u64>, bits: nat) -> nat
    decreases vals.len(),
{
    if vals.len() == 0 {
        0
    } else {
        pack_word(vals.drop_last(), bits) + (vals.last() as nat) * pow2(((vals.len() - 1) * bits) as nat)
    }
}

/// The words holding `vals`, `per` values to a word; the last word holds
/// what is left.
pub open spec fn compact_words(vals: Seq<u64>, per: nat, bits: nat) -> Seq<nat>
    decreases vals.len(),
{
    if vals.len() == 0 || per == 0 {
        Seq::empty()
    } else if vals.len() <= per {
        seq![pack_word(vals, bits)]
    } else {
        seq![pack_word(vals.take(per as int), bits)] + compact_words(vals.skip(per as int), per, bits)
    }
}

/// The big-endian bytes of each word in turn.
pub open spec fn words_bytes(words: Seq<nat>) -> Seq<u8>
    decreases words.len(),
{
    if words.len() == 0 {
        Seq::empty()
    } else {
        words_bytes(words.drop_last()) + be_bytes_u64(words.last() as u64)
    }
}

/// The number of words that hold `vals_count` values of `bits_per_val` bits.
pub fn compact_u64s_len(vals_count: usize, bits_per_val: usize) -> (n: usize)
    requires
        1 <= bits_per_val <= 64,
    ensures
        n == compact_len(vals_count as nat, bits_per_val as nat),
{
    let per = 64 / bits_per_val;
    assert(per >= 1) by (nonlinear_arith)
        requires
            per == 64usize / bits_per_val,
            1 <= bits_per_val <= 64,
    ;
    let q = vals_count / per;
    if vals_count % per == 0 {
        q
    } else {
        proof {
            vstd::arithmetic::div_mod::lemma_div_is_ordered_by_denominator(vals_count as int, 2, per as int);
        }
        q + 1
    }
}

/// Adding value `v` of `b` bits above a word `n` of `s` bits: with `s + b`
/// at most 64, the OR is the sum, and the result fits in `s + b` bits.
proof fn lemma_or_above(n: u64, v: u64, s: u64, b: u64)
    requires
        1 <= b,
        s + b <= 64,
        n < pow2(s as nat),
        v < pow2(b as nat),
    ensures
        s < 64,
        (n | (v << s)) == n + v * pow2(s as nat),
        n + v * pow2(s as nat) < pow2((s + b) as nat),
{
    vstd::bits::lemma_u64_pow2_no_overflow(s as nat);
    vstd::bits::lemma_u64_shl_is_mul(1, s);
    lemma_pow2_pos(s as nat);
    lemma_pow2_adds(s as nat, b as nat);
    assert(v * pow2(s as nat) <= (pow2(b as nat) - 1) * pow2(s as nat)) by (nonlinear_arith)
        requires
            v < pow2(b as nat),
            pow2(s as nat) > 0,
    ;
    assert((pow2(b as nat) - 1) * pow2(s as nat) == pow2(b as nat) * pow2(s as nat) - pow2(
        s as nat,
    )) by (nonlinear_arith);
    assert(pow2(b as nat) * pow2(s as nat) == pow2((s + b) as nat));
    assert(pow2((s + b) as nat) <= pow2(64)) by {
        if s + b < 64 {
            vstd::arithmetic::power2::lemma_pow2_strictly_increases((s + b) as nat, 64);
        }
    }
    vstd::arithmetic::power2::lemma2_to64_rest();
    assert(v * pow2(s as nat) <= u64::MAX);
    vstd::bits::lemma_u64_shl_is_mul(v, s);
    assert((v << s) >> s == v) by {
        vstd::bits::lemma_u64_shr_is_div(v << s, s);
        vstd::arithmetic::div_mod::lemma_div_by_multiple(v as int, pow2(s as nat) as int);
    }
    let one_s: u64 = 1u64 << s;
    assert(one_s == pow2(s as nat));
    assert(n < one_s);
    assert((n | (v << s)) == n + (v << s)) by (bit_vector)
        requires
            n < one_s,
            one_s == 1u64 << s,
            s < 64,
            (v << s) >> s == v,
    ;
}

/// Splitting the values after `k` whole words splits the words there.
proof fn lemma_compact_words_split(vals: Seq<u64>, per: nat, bits: nat, k: nat)
    requires
        per >= 1,
        k * per <= vals.len(),
    ensures
        compact_words(vals, per, bits) == compact_words(vals.take((k * per) as int), per, bits)
            + compact_words(vals.skip((k * per) as int), per, bits),
    decreases k,
{
    let start = (k * per) as int;
    if k == 0 {
        assert(k * per == 0) by (nonlinear_arith)
            requires
                k == 0,
        ;
        assert(vals.take(0) =~= Seq::<u64>::empty());
        assert(vals.skip(0) =~= vals);
        assert(compact_words(Seq::<u64>::empty(), per, bits) =~= Seq::<nat>::empty());
        assert(compact_words(vals, per, bits) =~= Seq::<nat>::empty() + compact_words(vals, per, bits));
    } else {
        assert(k * per == (k - 1) * per + per) by (nonlinear_arith);
        assert((k - 1) * per >= 0) by (nonlinear_arith)
            requires
                k >= 1,
        ;
        if vals.len() <= per {
            assert(k == 1) by (nonlinear_arith)
                requires
                    k * per <= vals.len(),
                    vals.len() <= per,
                    k >= 1,
                    per >= 1,
            ;
            assert(vals.len() == per);
            assert(vals.take(start) =~= vals);
            assert(vals.skip(start) =~= Seq::<u64>::empty());
            assert(compact_words(vals.skip(start), per, bits) =~= Seq::<nat>::empty());
            assert(compact_words(vals, per, bits) =~= compact_words(vals, per, bits) + Seq::<nat>::empty());
        } else {
            let rest = vals.skip(per as int);
            let k1 = (k - 1) as nat;
            lemma_compact_words_split(rest, per, bits, k1);
            let taken = vals.take(start);
            assert(rest.take((k1 * per) as int) =~= taken.skip(per as int));
            assert(rest.skip((k1 * per) as int) =~= vals.skip(start));
            assert(taken.take(per as int) =~= vals.take(per as int));
            if k == 1 {
                assert(k * per == per) by (nonlinear_arith)
                    requires
                        k == 1,
                ;
                assert(taken =~= vals.take(per as int));
                assert(taken.skip(per as int) =~= Seq::<u64>::empty());
                assert(compact_words(taken.skip(per as int), per, bits) =~= Seq::<nat>::empty());
            } else {
                assert(k1 * per >= per) by (nonlinear_arith)
                    requires
                        k1 >= 1,
                        per >= 1,
                ;
            }
            assert(compact_words(vals, per, bits) =~= compact_words(taken, per, bits) + compact_words(
                vals.skip(start),
                per,
                bits,
            ));
        }
    }
}

/// Appends the values, `bits_per_val` bits each, packed into 64-bit words:
/// as many whole values as fit go in each word, the first in the lowest
/// bits, and each word is written big-endian. A last word that is not
/// full is written too; no word is written for no values.
pub fn encode_compact_u64s(w: &mut Vec<u8>, vals: &[u64], bits_per_val: usize)
    requires
        1 <= bits_per_val <= 64,
        forall|i: int| 0 <= i < vals@.len() ==> vals@[i] < pow2(bits_per_val as nat),
    ensures
        final(w)@ == old(w)@ + words_bytes(
            compact_words(vals@, vals_per_word(bits_per_val as nat), bits_per_val as nat),
        ),
{
    let ghost w0 = w@;
    let ghost bits = bits_per_val as nat;
    let per = 64 / bits_per_val;
    assert(per >= 1 && per * bits_per_val <= 64) by (nonlinear_arith)
        requires
            per == 64usize / bits_per_val,
            1 <= bits_per_val <= 64,
    ;
    let ghost perv = per as nat;
    let mut pos: usize = 0;
    let ghost mut k: nat = 0;
    loop
        invariant
            1 <= bits_per_val <= 64,
            bits == bits_per_val as nat,
            per == vals_per_word(bits),
            perv == per as nat,
            per >= 1,
            per * bits_per_val <= 64,
            forall|i: int| 0 <= i < vals@.len() ==> vals@[i] < pow2(bits_per_val as nat),
            pos == k * perv,
            pos <= vals@.len(),
            w0 == old(w)@,
            w@ == w0 + words_bytes(compact_words(vals@.take(pos as int), perv, bits)),
        decreases vals@.len() - pos,
    {
        let start = pos;
        let mut n: u64 = 0;
        let mut i: usize = 0;
        proof {
            vstd::arithmetic::power2::lemma2_to64();
        }
        while i < per
            invariant
                1 <= bits_per_val <= 64,
                bits == bits_per_val as nat,
                per == vals_per_word(bits),
                perv == per as nat,
                per >= 1,
                per * bits_per_val <= 64,
                forall|j: int| 0 <= j < vals@.len() ==> vals@[j] < pow2(bits_per_val as nat),
                start == k * perv,
                start <= vals@.len(),
                w0 == old(w)@,
                w@ == w0 + words_bytes(compact_words(vals@.take(start as int), perv, bits)),
                i <= per,
                pos == start + i,
                pos <= vals@.len(),
                n == pack_word(vals@.subrange(start as int, pos as int), bits),
                n < pow2((i * bits_per_val) as nat),
            decreases per - i,
        {
            if pos < vals.len() {
                proof {
                    assert((i + 1) * bits_per_val <= 64) by (nonlinear_arith)
                        requires
                            i < per,
                            per * bits_per_val <= 64,
                    ;
                    assert((i + 1) * bits_per_val == i * bits_per_val + bits_per_val) by (nonlinear_arith);
                }
                let shift = (i * bits_per_val) as u64;
                proof {
                    lemma_or_above(n, vals@[pos as int], shift, bits_per_val as u64);
                    let sub = vals@.subrange(start as int, pos + 1);
                    assert(sub.drop_last() =~= vals@.subrange(start as int, pos as int));
                }
                n = n | (vals[pos] << shift);
                pos = pos + 1;
            } else if i > 0 {
                proof {
                    lemma_compact_words_split(vals@, perv, bits, k);
                    assert(vals@.take(vals@.len() as int) =~= vals@);
                    assert(vals@.skip(start as int) =~= vals@.subrange(start as int, pos as int));
                    let tail = vals@.skip(start as int);
                    assert(compact_words(tail, perv, bits) =~= seq![n as nat]);
                    let before = compact_words(vals@.take(start as int), perv, bits);
                    assert((before + seq![n as nat]).drop_last() =~= before);
                }
                write_u64_be(w, n);
                return;
            } else {
                proof {
                    assert(vals@.take(pos as int) =~= vals@);
                }
                return;
            }
            i = i + 1;
        }
        proof {
            let end = (start + per) as int;
            let taken = vals@.take(end);
            assert(end == (k + 1) * perv) by (nonlinear_arith)
                requires
                    start == k * perv,
                    end == start + perv,
            ;
            lemma_compact_words_split(taken, perv, bits, k);
            assert(taken.take(start as int) =~= vals@.take(start as int));
            assert(taken.skip(start as int) =~= vals@.subrange(start as int, end));
            assert(compact_words(taken.skip(start as int), perv, bits) =~= seq![n as nat]);
            let before = compact_words(vals@.take(start as int), perv, bits);
            assert((before + seq![n as nat]).drop_last() =~= before);
            k = k + 1;
        }
        write_u64_be(w, n);
    }
}

/// The number of blocks in a chunk section.
pub const SECTION_BLOCK_COUNT: usize = 4096;

/// The number of blocks among `blocks` that are not air.
pub open spec fn count_non_air(blocks: Seq<BlockState>) -> nat
    decreases blocks.len(),
{
    if blocks.len() == 0 {
        0
    } else {
        count_non_air(blocks.drop_last()) + if blocks.last().air {
            0nat
        } else {
            1nat
        }
    }
}

proof fn lemma_count_non_air_update(s: Seq<BlockState>, i: int, b: BlockState)
    requires
        0 <= i < s.len(),
    ensures
        count_non_air(s.update(i, b)) + (if s[i].air {
            0int
        } else {
            1int
        }) == count_non_air(s) + (if b.air {
            0int
        } else {
            1int
        }),
    decreases s.len(),
{
    if i == s.len() - 1 {
        assert(s.update(i, b).drop_last() =~= s.drop_last());
    } else {
        lemma_count_non_air_update(s.drop_last(), i, b);
        assert(s.update(i, b).drop_last() =~= s.drop_last().update(i, b));
    }
}

proof fn lemma_count_non_air_bound(s: Seq<BlockState>)
    ensures
        count_non_air(s) <= s.len(),
    decreases s.len(),
{
    if s.len() > 0 {
        lemma_count_non_air_bound(s.drop_last());
    }
}

proof fn lemma_count_non_air_same(n: nat, b: BlockState)
    ensures
        count_non_air(Seq::new(n, |i: int| b)) == if b.air {
            0
        } else {
            n
        },
    decreases n,
{
    if n > 0 {
        lemma_count_non_air_same((n - 1) as nat, b);
        assert(Seq::new(n, |i: int| b).drop_last() =~= Seq::new((n - 1) as nat, |i: int| b));
    }
}

/// What a chunk section holds: its 4096 blocks, by `x + z * 16 + y * 256`;
/// its 64 biomes, by `x + z * 4 + y * 16`; and the blocks marked as changed
/// this tick.
pub struct SectionState {
    pub blocks: Seq<BlockState>,
    pub biomes: Seq<BiomeId>,
    pub modified: Set<int>,
}

/// A new section: air everywhere, the default biome, nothing changed.
pub open spec fn default_section() -> SectionState {
    SectionState {
        blocks: Seq::new(4096, |i: int| BlockState { raw: 0, air: true }),
        biomes: Seq::new(64, |i: int| BiomeId(0)),
        modified: Set::empty(),
    }
}

/// Whether bit `i` of the words is set, bit 0 being the lowest of the first
/// word.
pub open spec fn bit_set(words: Seq<u64>, i: int) -> bool {
    (words[i / 64] >> ((i % 64) as u64)) & 1 == 1
}

proof fn lemma_word_bits(w: u64, b: u64, k: u64)
    by (bit_vector)
    requires
        b < 64,
        k < 64,
    ensures
        ((w | (1u64 << b)) >> k) & 1 == if k == b {
            1u64
        } else {
            (w >> k) & 1
        },
        (0u64 >> k) & 1 == 0,
        (0xffff_ffff_ffff_ffffu64 >> k) & 1 == 1,
{
}

/// A stored number below `0x2_0000` is the number of the block state it
/// stands for.
proof fn lemma_code_canonical(c: u32)
    requires
        c < 0x2_0000,
    ensures
        block_code(block_of_code(c)) == c,
{
}

/// A 16 by 16 by 16 block volume of a chunk with its biomes.
struct ChunkSection {
    block_states: PalettedContainer<4096, 2048>,
    /// A set bit for every block changed this tick.
    modified_blocks: [u64; 64],
    /// The number of blocks changed this tick.
    modified_blocks_count: u16,
    /// The number of blocks that are not air.
    non_air_count: u16,
    biomes: PalettedContainer<64, 32>,
}

impl ChunkSection {
    spec fn modified_set(&self) -> Set<int> {
        Set::new(|i: int| 0 <= i < 4096 && bit_set(self.modified_blocks@, i))
    }

    spec fn state(&self) -> SectionState {
        SectionState {
            blocks: self.block_states.view().map_values(|c: u32| block_of_code(c)),
            biomes: self.biomes.view().map_values(|c: u32| BiomeId(c as u16)),
            modified: self.modified_set(),
        }
    }

    spec fn wf(&self) -> bool {
        &&& self.block_states.wf()
        &&& forall|i: int|
            0 <= i < self.block_states.view().len() ==> #[trigger] self.block_states.view()[i]
                < 0x2_0000
        &&& self.biomes.wf()
        &&& self.modified_blocks_count == self.modified_set().len()
        &&& self.non_air_count == count_non_air(self.state().blocks)
    }

    proof fn lemma_modified_finite(&self)
        ensures
            self.modified_set().finite(),
            self.modified_set().len() <= 4096,
    {
        vstd::set_lib::lemma_int_range(0, 4096);
        assert(self.modified_set().subset_of(vstd::set_lib::set_int_range(0, 4096)));
        vstd::set_lib::lemma_len_subset(self.modified_set(), vstd::set_lib::set_int_range(0, 4096));
    }

    proof fn lemma_lens(&self)
        requires
            self.wf(),
        ensures
            self.state().blocks.len() == 4096,
            self.state().biomes.len() == 64,
            self.non_air_count <= 4096,
            self.modified_blocks_count <= 4096,
    {
        self.block_states.lemma_view_len();
        self.biomes.lemma_view_len();
        lemma_count_non_air_bound(self.state().blocks);
        self.lemma_modified_finite();
    }

    fn new() -> (s: Self)
        ensures
            s.wf(),
            s.state() == default_section(),
    {
        let mut block_states = PalettedContainer::<4096, 2048>::new();
        block_states.fill(BlockState::air_block().code());
        let s = ChunkSection {
            block_states,
            modified_blocks: [0u64; 64],
            modified_blocks_count: 0,
            non_air_count: 0,
            biomes: PalettedContainer::<64, 32>::new(),
        };
        proof {
            assert forall|i: int| 0 <= i < 4096 implies !bit_set(s.modified_blocks@, i) by {
                lemma_word_bits(0, 0, (i % 64) as u64);
            }
            assert(s.modified_set() =~= Set::<int>::empty());
            let air = BlockState { raw: 0, air: true };
            assert(s.state().blocks =~= Seq::new(4096, |i: int| air));
            assert(s.state().biomes =~= Seq::new(64, |i: int| BiomeId(0)));
            lemma_count_non_air_same(4096, air);
        }
        s
    }

    fn block(&self, idx: usize) -> (b: BlockState)
        requires
            self.wf(),
            idx < 4096,
        ensures
            b == self.state().blocks[idx as int],
    {
        proof {
            self.lemma_lens();
        }
        BlockState::from_code(self.block_states.get(idx))
    }

    /// Sets block `idx`, keeping the count of blocks that are not air.
    fn set_block(&mut self, idx: usize, block: BlockState) -> (old_block: BlockState)
        requires
            old(self).wf(),
            idx < 4096,
        ensures
            final(self).wf(),
            old_block == old(self).state().blocks[idx as int],
            final(self).state() == (SectionState {
                blocks: old(self).state().blocks.update(idx as int, block),
                ..old(self).state()
            }),
    {
        proof {
            self.lemma_lens();
        }
        let ghost before = self.state();
        let old_code = self.block_states.set(idx, block.code());
        let old_block = BlockState::from_code(old_code);
        proof {
            lemma_count_non_air_update(before.blocks, idx as int, block);
            assert(self.state().blocks =~= before.blocks.update(idx as int, block));
            lemma_count_non_air_bound(self.state().blocks);
            self.block_states.lemma_view_len();
        }
        if block.is_air() && !old_block.is_air() {
            self.non_air_count = self.non_air_count - 1;
        } else if !block.is_air() && old_block.is_air() {
            self.non_air_count = self.non_air_count + 1;
        }
        old_block
    }

    /// Sets every block to `block`.
    fn fill_blocks(&mut self, block: BlockState)
        requires
            old(self).wf(),
        ensures
            final(self).wf(),
            final(self).state() == (SectionState {
                blocks: Seq::new(4096, |i: int| block),
                ..old(self).state()
            }),
    {
        if block.is_air() {
            self.non_air_count = 0;
        } else {
            self.non_air_count = 4096;
        }
        self.block_states.fill(block.code());
        proof {
            assert(self.state().blocks =~= Seq::new(4096, |i: int| block));
            lemma_count_non_air_same(4096, block);
        }
    }

    fn biome(&self, idx: usize) -> (b: BiomeId)
        requires
            self.wf(),
            idx < 64,
        ensures
            b == self.state().biomes[idx as int],
    {
        proof {
            self.lemma_lens();
        }
        BiomeId(self.biomes.get(idx) as u16)
    }

    fn set_biome(&mut self, idx: usize, biome: BiomeId) -> (old_biome: BiomeId)
        requires
            old(self).wf(),
            idx < 64,
        ensures
            final(self).wf(),
            old_biome == old(self).state().biomes[idx as int],
            final(self).state() == (SectionState {
                biomes: old(self).state().biomes.update(idx as int, biome),
                ..old(self).state()
            }),
    {
        proof {
            self.lemma_lens();
        }
        let ghost before = self.state();
        let old = self.biomes.set(idx, biome.0 as u32);
        proof {
            assert(self.state().biomes =~= before.biomes.update(idx as int, biome));
            assert(self.state().blocks =~= before.blocks);
        }
        BiomeId(old as u16)
    }

    fn fill_biomes(&mut self, biome: BiomeId)
        requires
            old(self).wf(),
        ensures
            final(self).wf(),
            final(self).state() == (SectionState {
                biomes: Seq::new(64, |i: int| biome),
                ..old(self).state()
            }),
    {
        let ghost before = self.state();
        self.biomes.fill(biome.0 as u32);
        proof {
            assert(self.state().biomes =~= Seq::new(64, |i: int| biome));
            assert(self.state().blocks =~= before.blocks);
        }
    }

    fn optimize(&mut self)
        requires
            old(self).wf(),
        ensures
            final(self).wf(),
            final(self).state() == old(self).state(),
            optimized_layout(old(self).block_states.layout(), final(self).block_states.layout(), 4096),
            optimized_layout(old(self).biomes.layout(), final(self).biomes.layout(), 64),
    {
        let ghost before = self.state();
        self.block_states.optimize();
        self.biomes.optimize();
        proof {
            assert(self.state().blocks =~= before.blocks);
            assert(self.state().biomes =~= before.biomes);
        }
    }

    fn is_block_modified(&self, idx: usize) -> (m: bool)
        requires
            idx < 4096,
        ensures
            m == self.state().modified.contains(idx as int),
    {
        (self.modified_blocks[idx / 64] >> ((idx % 64) as u64)) & 1 == 1
    }

    fn mark_block_as_modified(&mut self, idx: usize)
        requires
            old(self).wf(),
            idx < 4096,
        ensures
            final(self).wf(),
            final(self).state() == (SectionState {
                modified: old(self).state().modified.insert(idx as int),
                ..old(self).state()
            }),
    {
        if !self.is_block_modified(idx) {
            let ghost before = self.modified_set();
            proof {
                self.lemma_modified_finite();
            }
            let w = idx / 64;
            let b = (idx % 64) as u64;
            self.modified_blocks[w] = self.modified_blocks[w] | (1u64 << b);
            self.modified_blocks_count = self.modified_blocks_count + 1;
            proof {
                assert forall|i: int| 0 <= i < 4096 implies bit_set(self.modified_blocks@, i) == (
                before.contains(i) || i == idx) by {
                    if i / 64 == w as int {
                        lemma_word_bits(old(self).modified_blocks@[w as int], b, (i % 64) as u64);
                    }
                }
                assert(self.modified_set() =~= before.insert(idx as int));
            }
        } else {
            assert(self.modified_set().insert(idx as int) =~= self.modified_set());
        }
    }

    fn mark_all_blocks_as_modified(&mut self)
        requires
            old(self).wf(),
        ensures
            final(self).wf(),
            final(self).state() == (SectionState {
                modified: vstd::set_lib::set_int_range(0, 4096),
                ..old(self).state()
            }),
    {
        self.modified_blocks = [0xffff_ffff_ffff_ffffu64; 64];
        self.modified_blocks_count = 4096;
        proof {
            assert forall|i: int| 0 <= i < 4096 implies bit_set(self.modified_blocks@, i) by {
                lemma_word_bits(0, 0, (i % 64) as u64);
            }
            assert(self.modified_set() =~= vstd::set_lib::set_int_range(0, 4096));
            vstd::set_lib::lemma_int_range(0, 4096);
        }
    }

    fn clear_modified(&mut self)
        requires
            old(self).wf(),
        ensures
            final(self).wf(),
            final(self).state() == (SectionState { modified: Set::empty(), ..old(self).state() }),
    {
        self.modified_blocks = [0u64; 64];
        self.modified_blocks_count = 0;
        proof {
            assert forall|i: int| 0 <= i < 4096 implies !bit_set(self.modified_blocks@, i) by {
                lemma_word_bits(0, 0, (i % 64) as u64);
            }
            assert(self.modified_set() =~= Set::<int>::empty());
        }
    }
}

/// The index in its section of the block at `(x, y, z)` of a chunk.
pub open spec fn block_index(x: int, y: int, z: int) -> int {
    x + z * 16 + (y % 16) * 256
}

/// The index in its section of the biome at `(x, y, z)` of a chunk, in
/// biome units.
pub open spec fn biome_index(x: int, y: int, z: int) -> int {
    x + z * 4 + (y % 4) * 16
}

/// The block at `(x, y, z)` of a chunk with sections `sections`.
pub open spec fn block_at(sections: Seq<SectionState>, x: int, y: int, z: int) -> BlockState {
    sections[y / 16].blocks[block_index(x, y, z)]
}

/// The sections with the block at `(x, y, z)` set to `b`.
pub open spec fn with_block(sections: Seq<SectionState>, x: int, y: int, z: int, b: BlockState) -> Seq<
    SectionState,
> {
    sections.update(
        y / 16,
        SectionState {
            blocks: sections[y / 16].blocks.update(block_index(x, y, z), b),
            ..sections[y / 16]
        },
    )
}

/// The biome at `(x, y, z)`, in biome units, of a chunk with sections
/// `sections`.
pub open spec fn biome_at(sections: Seq<SectionState>, x: int, y: int, z: int) -> BiomeId {
    sections[y / 4].biomes[biome_index(x, y, z)]
}

/// The sections with the biome at `(x, y, z)` set to `b`.
pub open spec fn with_biome(sections: Seq<SectionState>, x: int, y: int, z: int, b: BiomeId) -> Seq<
    SectionState,
> {
    sections.update(
        y / 4,
        SectionState {
            biomes: sections[y / 4].biomes.update(biome_index(x, y, z), b),
            ..sections[y / 4]
        },
    )
}

/// The sections of a chunk resized to `height` blocks: cut from the top,
/// or extended at the top with new sections.
pub open spec fn resized(sections: Seq<SectionState>, height: nat) -> Seq<SectionState> {
    let n = height / 16;
    if n <= sections.len() {
        sections.take(n as int)
    } else {
        sections + Seq::new((n - sections.len()) as nat, |i: int| default_section())
    }
}

/// The blocks and biomes of the sections, without the record of changes.
pub open spec fn contents(sections: Seq<SectionState>) -> Seq<(Seq<BlockState>, Seq<BiomeId>)> {
    sections.map_values(|s: SectionState| (s.blocks, s.biomes))
}

/// The sections with nothing marked as changed.
pub open spec fn unmarked(sections: Seq<SectionState>) -> Seq<SectionState> {
    sections.map_values(|s: SectionState| SectionState { modified: Set::empty(), ..s })
}

spec fn sections_wf(v: Seq<ChunkSection>) -> bool {
    &&& v.len() <= 254
    &&& forall|i: int| 0 <= i < v.len() ==> #[trigger] v[i].wf()
}

spec fn section_states(v: Seq<ChunkSection>) -> Seq<SectionState> {
    v.map_values(|s: ChunkSection| s.state())
}

/// Resizes `v` to `new_height` blocks.
fn resize_sections(v: &mut Vec<ChunkSection>, new_height: usize)
    requires
        new_height % 16 == 0,
        new_height <= 4064,
        sections_wf(old(v)@),
    ensures
        sections_wf(final(v)@),
        section_states(final(v)@) == resized(section_states(old(v)@), new_height as nat),
{
    let n = new_height / 16;
    let ghost before = section_states(v@);
    if n > v.len() {
        while v.len() < n
            invariant
                n <= 254,
                sections_wf(v@) || v@.len() <= n,
                forall|i: int| 0 <= i < v@.len() ==> #[trigger] v@[i].wf(),
                old(v)@.len() <= v@.len() <= n,
                section_states(v@) == before + Seq::new(
                    (v@.len() - before.len()) as nat,
                    |i: int| default_section(),
                ),
                before.len() == old(v)@.len(),
            decreases n - v@.len(),
        {
            let ghost prev = section_states(v@);
            v.push(ChunkSection::new());
            proof {
                assert(section_states(v@) =~= prev.push(default_section()));
                assert(before + Seq::new((v@.len() - before.len()) as nat, |i: int| default_section())
                    =~= (before + Seq::new(
                    (v@.len() - 1 - before.len()) as nat,
                    |i: int| default_section(),
                )).push(default_section()));
            }
        }
    } else {
        v.truncate(n);
        assert(section_states(v@) =~= before.take(n as int));
    }
}

/// What storing every section compactly does to the sections' layouts,
/// of their blocks and of their biomes: each is optimized as a paletted
/// container of 4096 or of 64 values is.
pub open spec fn optimized_sections(before: Seq<(Layout, Layout)>, after: Seq<(Layout, Layout)>) -> bool {
    &&& after.len() == before.len()
    &&& forall|j: int|
        0 <= j < before.len() ==> optimized_layout(#[trigger] before[j].0, after[j].0, 4096)
            && optimized_layout(before[j].1, after[j].1, 64)
}

/// A chunk that is not loaded in any world.
pub struct UnloadedChunk {
    sections: Vec<ChunkSection>,
}

impl UnloadedChunk {
    /// The chunk's sections, from the bottom.
    pub closed spec fn sections(&self) -> Seq<SectionState> {
        section_states(self.sections@)
    }

    /// Every section holds 4096 blocks and 64 biomes, and there are at most
    /// 254 sections.
    #[verifier::spinoff_prover]
    pub proof fn lemma_sections_sized(&self)
        requires
            self.wf(),
        ensures
            sections_sized(self.sections()),
            self.sections().len() <= 254,
    {
        let ss = self.sections();
        assert forall|j: int| 0 <= j < ss.len() implies #[trigger] ss[j].blocks.len() == 4096
            && ss[j].biomes.len() == 64 by {
            assert(self.sections@[j].wf());
            assert(ss[j] == self.sections@[j].state());
            self.sections@[j].lemma_lens();
        }
        assert(sections_sized(ss));
    }

    /// How each section holds its blocks and its biomes.
    pub closed spec fn section_layouts(&self) -> Seq<(Layout, Layout)> {
        self.sections@.map_values(|s: ChunkSection| (s.block_states.layout(), s.biomes.layout()))
    }

    /// The internal invariant.
    pub closed spec fn wf(&self) -> bool {
        sections_wf(self.sections@)
    }

    /// A chunk of `height` blocks of air with the default biome.
    pub fn new(height: usize) -> (c: Self)
        requires
            height % 16 == 0,
            height <= 4064,
        ensures
            c.wf(),
            c.sections() == Seq::new(height as nat / 16, |i: int| default_section()),
    {
        let mut c = Self { sections: Vec::new() };
        c.resize(height);
        assert(c.sections() =~= Seq::new(height as nat / 16, |i: int| default_section()));
        c
    }

    /// Changes the height of the chunk to `new_height` blocks, cutting or
    /// extending it at the top. New sections hold air and the default biome.
    pub fn resize(&mut self, new_height: usize)
        requires
            old(self).wf(),
            new_height % 16 == 0,
            new_height <= 4064,
        ensures
            final(self).wf(),
            final(self).sections() == resized(old(self).sections(), new_height as nat),
    {
        resize_sections(&mut self.sections, new_height);
    }

    /// The height of the chunk in blocks, a multiple of 16.
    pub fn height(&self) -> (h: usize)
        requires
            self.wf(),
        ensures
            h == self.sections().len() * 16,
    {
        self.sections.len() * 16
    }

    /// The block at offsets `(x, y, z)` from the chunk's lowest corner.
    pub fn block_state(&self, x: usize, y: usize, z: usize) -> (b: BlockState)
        requires
            self.wf(),
            x < 16 && z < 16 && y < self.sections().len() * 16,
        ensures
            b == block_at(self.sections(), x as int, y as int, z as int),
    {
        assert(self.sections@[(y / 16) as int].wf());
        self.sections[y / 16].block(x + z * 16 + y % 16 * 256)
    }

    /// Sets the block at offsets `(x, y, z)` and returns the one it
    /// replaced.
    pub fn set_block_state(&mut self, x: usize, y: usize, z: usize, block: BlockState) -> (old_b:
        BlockState)
        requires
            old(self).wf(),
            x < 16 && z < 16 && y < old(self).sections().len() * 16,
        ensures
            final(self).wf(),
            old_b == block_at(old(self).sections(), x as int, y as int, z as int),
            final(self).sections() == with_block(
                old(self).sections(),
                x as int,
                y as int,
                z as int,
                block,
            ),
    {
        let ghost before = self.sections();
        let s = y / 16;
        assert(self.sections@[s as int].wf());
        let old_b = self.sections[s].set_block(x + z * 16 + y % 16 * 256, block);
        proof {
            assert(self.sections() =~= with_block(before, x as int, y as int, z as int, block));
        }
        old_b
    }

    /// Sets every block of the chunk to `block`.
    pub fn fill_block_states(&mut self, block: BlockState)
        requires
            old(self).wf(),
        ensures
            final(self).wf(),
            final(self).sections() == old(self).sections().map_values(
                |s: SectionState| SectionState { blocks: Seq::new(4096, |i: int| block), ..s },
            ),
    {
        let ghost before = self.sections();
        let mut i: usize = 0;
        while i < self.sections.len()
            invariant
                sections_wf(self.sections@),
                self.sections@.len() == before.len(),
                0 <= i <= before.len(),
                forall|j: int|
                    0 <= j < before.len() ==> #[trigger] self.sections()[j] == if j < i {
                        SectionState { blocks: Seq::new(4096, |k: int| block), ..before[j] }
                    } else {
                        before[j]
                    },
            decreases before.len() - i,
        {
            assert(self.sections@[i as int].wf());
            let ghost prev = self.sections@;
            let ghost prev_state = self.sections();
            self.sections[i].fill_blocks(block);
            proof {
                assert forall|j: int| 0 <= j < before.len() && j != i implies self.sections@[j]
                    == prev[j] by {}
                assert forall|j: int| 0 <= j < before.len() implies #[trigger] self.sections()[j]
                    == if j <= i {
                    SectionState { blocks: Seq::new(4096, |k: int| block), ..before[j] }
                } else {
                    before[j]
                } by {
                    assert(self.sections()[j] == self.sections@[j].state());
                    assert(prev_state[j] == prev[j].state());
                }
            }
            i = i + 1;
        }
        assert(self.sections() =~= before.map_values(
            |s: SectionState| SectionState { blocks: Seq::new(4096, |k: int| block), ..s },
        ));
    }

    /// The biome at offsets `(x, y, z)`, in biome units of four blocks.
    pub fn biome(&self, x: usize, y: usize, z: usize) -> (b: BiomeId)
        requires
            self.wf(),
            x < 4 && z < 4 && y < self.sections().len() * 4,
        ensures
            b == biome_at(self.sections(), x as int, y as int, z as int),
    {
        assert(self.sections@[(y / 4) as int].wf());
        self.sections[y / 4].biome(x + z * 4 + y % 4 * 16)
    }

    /// Sets the biome at offsets `(x, y, z)`, in biome units, and returns
    /// the one it replaced.
    pub fn set_biome(&mut self, x: usize, y: usize, z: usize, biome: BiomeId) -> (old_b: BiomeId)
        requires
            old(self).wf(),
            x < 4 && z < 4 && y < old(self).sections().len() * 4,
        ensures
            final(self).wf(),
            old_b == biome_at(old(self).sections(), x as int, y as int, z as int),
            final(self).sections() == with_biome(
                old(self).sections(),
                x as int,
                y as int,
                z as int,
                biome,
            ),
    {
        let ghost before = self.sections();
        let s = y / 4;
        assert(self.sections@[s as int].wf());
        let old_b = self.sections[s].set_biome(x + z * 4 + y % 4 * 16, biome);
        proof {
            assert(self.sections() =~= with_biome(before, x as int, y as int, z as int, biome));
        }
        old_b
    }

    /// Sets every biome of the chunk to `biome`.
    pub fn fill_biomes(&mut self, biome: BiomeId)
        requires
            old(self).wf(),
        ensures
            final(self).wf(),
            final(self).sections() == old(self).sections().map_values(
                |s: SectionState| SectionState { biomes: Seq::new(64, |i: int| biome), ..s },
            ),
    {
        let ghost before = self.sections();
        let mut i: usize = 0;
        while i < self.sections.len()
            invariant
                sections_wf(self.sections@),
                self.sections@.len() == before.len(),
                0 <= i <= before.len(),
                forall|j: int|
                    0 <= j < before.len() ==> #[trigger] self.sections()[j] == if j < i {
                        SectionState { biomes: Seq::new(64, |k: int| biome), ..before[j] }
                    } else {
                        before[j]
                    },
            decreases before.len() - i,
        {
            assert(self.sections@[i as int].wf());
            let ghost prev = self.sections@;
            let ghost prev_state = self.sections();
            self.sections[i].fill_biomes(biome);
            proof {
                assert forall|j: int| 0 <= j < before.len() && j != i implies self.sections@[j]
                    == prev[j] by {}
                assert forall|j: int| 0 <= j < before.len() implies #[trigger] self.sections()[j]
                    == if j <= i {
                    SectionState { biomes: Seq::new(64, |k: int| biome), ..before[j] }
                } else {
                    before[j]
                } by {
                    assert(self.sections()[j] == self.sections@[j].state());
                    assert(prev_state[j] == prev[j].state());
                }
            }
            i = i + 1;
        }
        assert(self.sections() =~= before.map_values(
            |s: SectionState| SectionState { biomes: Seq::new(64, |k: int| biome), ..s },
        ));
    }

    /// Stores every section in its most compact form; nothing observable
    /// changes.
    pub fn optimize(&mut self)
        requires
            old(self).wf(),
        ensures
            final(self).wf(),
            final(self).sections() == old(self).sections(),
            optimized_sections(old(self).section_layouts(), final(self).section_layouts()),
    {
        let ghost before = self.sections();
        let ghost lay0 = self.section_layouts();
        let mut i: usize = 0;
        while i < self.sections.len()
            invariant
                sections_wf(self.sections@),
                self.sections@.len() == before.len(),
                0 <= i <= before.len(),
                forall|j: int| 0 <= j < before.len() ==> #[trigger] self.sections()[j] == before[j],
                lay0.len() == before.len(),
                forall|j: int|
                    0 <= j < i ==> optimized_layout(#[trigger] lay0[j].0, self.section_layouts()[j].0, 4096)
                        && optimized_layout(lay0[j].1, self.section_layouts()[j].1, 64),
                forall|j: int| i <= j < before.len() ==> #[trigger] self.section_layouts()[j] == lay0[j],
            decreases before.len() - i,
        {
            assert(self.sections@[i as int].wf());
            let ghost prev = self.sections@;
            let ghost prev_state = self.sections();
            let ghost prev_lay = self.section_layouts();
            self.sections[i].optimize();
            proof {
                assert forall|j: int| 0 <= j < before.len() && j != i implies #[trigger] self.section_layouts()[j]
                    == prev_lay[j] by {
                    assert(self.sections@[j] == prev[j]);
                }
                assert(prev_lay[i as int] == lay0[i as int]);
                assert forall|j: int| 0 <= j < before.len() && j != i implies self.sections@[j]
                    == prev[j] by {}
                assert forall|j: int| 0 <= j < before.len() implies #[trigger] self.sections()[j]
                    == if j <= i {
                    before[j]
                } else {
                    before[j]
                } by {
                    assert(self.sections()[j] == self.sections@[j].state());
                    assert(prev_state[j] == prev[j].state());
                }
            }
            i = i + 1;
        }
        assert(self.sections() =~= before);
    }
}

impl Default for UnloadedChunk {
    /// A chunk of height zero.
    fn default() -> (c: Self)
        ensures
            c.wf(),
            c.sections() == Seq::<SectionState>::empty(),
    {
        let c = Self::new(0);
        assert(c.sections() =~= Seq::<SectionState>::empty());
        c
    }
}

/// The sections with the block at `(x, y, z)` set to `b` and marked as
/// changed.
pub open spec fn with_block_marked(
    sections: Seq<SectionState>,
    x: int,
    y: int,
    z: int,
    b: BlockState,
) -> Seq<SectionState> {
    sections.update(
        y / 16,
        SectionState {
            blocks: sections[y / 16].blocks.update(block_index(x, y, z), b),
            modified: sections[y / 16].modified.insert(block_index(x, y, z)),
            ..sections[y / 16]
        },
    )
}

/// A section filled with `b`, with every block that was not `b` marked as
/// changed.
pub open spec fn filled_marked(s: SectionState, b: BlockState) -> SectionState {
    SectionState {
        blocks: Seq::new(4096, |i: int| b),
        modified: s.modified.union(Set::new(|i: int| 0 <= i < 4096 && s.blocks[i] != b)),
        ..s
    }
}

/// A change of blocks to send to clients: one block, or several blocks of
/// one section.
pub enum BlockChange {
    Single { location: BlockPos, block_id: i32 },
    Section { position: i64, blocks: Seq<i64> },
}

/// A packet announcing changed blocks: the block update of a single block,
/// or the section update of several blocks of one section.
#[derive(Clone, PartialEq, Eq, Debug)]
pub enum BlockChangePacket {
    Single { location: BlockPos, block_id: i32 },
    Section { position: i64, blocks: Vec<i64> },
}

impl View for BlockChangePacket {
    type V = BlockChange;

    open spec fn view(&self) -> BlockChange {
        match self {
            BlockChangePacket::Single { location, block_id } => BlockChange::Single {
                location: *location,
                block_id: *block_id,
            },
            BlockChangePacket::Section { position, blocks } => BlockChange::Section {
                position: *position,
                blocks: blocks@,
            },
        }
    }
}

/// The position of section `sy` of the chunk at `pos` in a world starting
/// at `min_y`, packed as the protocol wants it: 22 bits of `x`, 22 of `z`
/// and 20 of the section's height.
pub open spec fn section_position(pos: ChunkPos, min_y: i32, sy: int) -> i64 {
    ((pos.x as i64) << 42i64) | (((pos.z as i64) & 0x3fffff) << 20i64) | (((sy + min_y
        / 16) as i64) & 0xfffff)
}

/// A changed block of a section, packed as the protocol wants it: the
/// block's number above twelve bits of position, `x`, `z` and `y`.
pub open spec fn packed_change(b: BlockState, idx: int) -> i64 {
    ((b.raw as i64) << 12i64) | (((idx % 16) * 256 + ((idx / 16) % 16) * 16 + idx / 256) as i64)
}

/// The packed changes of the first `n` blocks of `s`, in order.
pub open spec fn packed_changes(s: SectionState, n: nat) -> Seq<i64>
    decreases n,
{
    if n == 0 {
        Seq::empty()
    } else if s.modified.contains(n - 1) {
        packed_changes(s, (n - 1) as nat).push(packed_change(s.blocks[n - 1], n - 1))
    } else {
        packed_changes(s, (n - 1) as nat)
    }
}

/// What announces the changes of section `sy` of the chunk at `pos`: for
/// one changed block, its block update at its place in the world; for more,
/// the section update listing them in order of index; for none, nothing.
pub open spec fn section_changes(pos: ChunkPos, min_y: i32, sy: int, s: SectionState) -> Seq<
    BlockChange,
> {
    if s.modified.len() == 1 {
        let idx = s.modified.choose();
        seq![
            BlockChange::Single {
                location: BlockPos {
                    x: (pos.x * 16 + idx % 16) as i32,
                    y: (sy * 16 + idx / 256 + min_y) as i32,
                    z: (pos.z * 16 + (idx / 16) % 16) as i32,
                },
                block_id: s.blocks[idx].raw as i32,
            },
        ]
    } else if s.modified.len() > 1 {
        seq![
            BlockChange::Section {
                position: section_position(pos, min_y, sy),
                blocks: packed_changes(s, 4096),
            },
        ]
    } else {
        Seq::empty()
    }
}

/// The changes of the first `n` sections, from the bottom.
pub open spec fn chunk_changes(pos: ChunkPos, min_y: i32, sections: Seq<SectionState>, n: nat) -> Seq<
    BlockChange,
>
    decreases n,
{
    if n == 0 {
        Seq::empty()
    } else {
        chunk_changes(pos, min_y, sections, (n - 1) as nat) + section_changes(
            pos,
            min_y,
            n - 1,
            sections[n - 1],
        )
    }
}

/// Whether every section's containers can be written with `block_bits`
/// and `biome_bits`.
pub open spec fn sections_encodable(
    layouts: Seq<(Layout, Layout)>,
    block_bits: ElementBits,
    biome_bits: ElementBits,
) -> bool {
    forall|i: int|
        0 <= i < layouts.len() ==> encodable(#[trigger] layouts[i].0, block_bits) && encodable(
            layouts[i].1,
            biome_bits,
        )
}

/// The two bytes of `v`, most significant first.
pub open spec fn be_bytes_u16(v: u16) -> Seq<u8> {
    seq![(v >> 8u16) as u8, v as u8]
}

/// The block and biome data of the first `n` sections: for each, the
/// number of blocks that are not air and its two containers.
pub open spec fn chunk_data_bytes(
    sections: Seq<SectionState>,
    layouts: Seq<(Layout, Layout)>,
    block_bits: ElementBits,
    biome_bits: ElementBits,
    n: nat,
) -> Seq<u8>
    decreases n,
{
    if n == 0 {
        Seq::empty()
    } else {
        chunk_data_bytes(sections, layouts, block_bits, biome_bits, (n - 1) as nat) + be_bytes_u16(
            count_non_air(sections[n - 1].blocks) as u16,
        ) + layout_bytes(layouts[n - 1].0, block_bits, 4096) + layout_bytes(
            layouts[n - 1].1,
            biome_bits,
            64,
        )
    }
}

impl ChunkSection {
    /// Sets block `idx` and marks it as changed when it changed.
    fn set_block_marked(&mut self, idx: usize, block: BlockState) -> (old_block: BlockState)
        requires
            old(self).wf(),
            idx < 4096,
        ensures
            final(self).wf(),
            old_block == old(self).state().blocks[idx as int],
            final(self).state() == if block == old_block {
                old(self).state()
            } else {
                SectionState {
                    blocks: old(self).state().blocks.update(idx as int, block),
                    modified: old(self).state().modified.insert(idx as int),
                    ..old(self).state()
                }
            },
    {
        let ghost before = self.state();
        proof {
            self.lemma_lens();
        }
        let old_block = self.set_block(idx, block);
        if block == old_block {
            proof {
                self.lemma_lens();
                assert(old_block == before.blocks[idx as int]);
                assert(self.state().blocks == before.blocks.update(idx as int, block));
                assert(self.state().blocks =~= before.blocks);
            }
        } else {
            self.mark_block_as_modified(idx);
        }
        old_block
    }

    /// Fills the section with `block`, marking every block that changes.
    fn fill_blocks_marked(&mut self, block: BlockState)
        requires
            old(self).wf(),
        ensures
            final(self).wf(),
            final(self).state() == filled_marked(old(self).state(), block),
    {
        let ghost before = self.state();
        proof {
            self.lemma_lens();
        }
        let code = block.code();
        match self.block_states.single() {
            Some(single) => {
                if code != single {
                    self.mark_all_blocks_as_modified();
                    proof {
                        assert forall|i: int| 0 <= i < 4096 implies before.blocks[i] != block by {
                            assert(before.blocks[i] == block_of_code(single));
                            assert(self.block_states.view()[i] == single);
                            lemma_code_canonical(single);
                        }
                        assert(vstd::set_lib::set_int_range(0, 4096) =~= before.modified.union(
                            Set::new(|i: int| 0 <= i < 4096 && before.blocks[i] != block),
                        ));
                    }
                } else {
                    proof {
                        assert forall|i: int| 0 <= i < 4096 implies before.blocks[i] == block by {
                            assert(before.blocks[i] == block_of_code(single));
                        }
                        assert(before.modified =~= before.modified.union(
                            Set::new(|i: int| 0 <= i < 4096 && before.blocks[i] != block),
                        ));
                    }
                }
            },
            None => {
                let mut i: usize = 0;
                while i < 4096
                    invariant
                        0 <= i <= 4096,
                        self.wf(),
                        self.state().blocks == before.blocks,
                        self.state().biomes == before.biomes,
                        self.state().modified == before.modified.union(
                            Set::new(|j: int| 0 <= j < i && before.blocks[j] != block),
                        ),
                        before.blocks.len() == 4096,
                    decreases 4096 - i,
                {
                    let ghost m0 = self.state().modified;
                    if block == self.block(i) {
                    } else {
                        self.mark_block_as_modified(i);
                    }
                    proof {
                        assert(self.state().modified =~= before.modified.union(
                            Set::new(|j: int| 0 <= j < i + 1 && before.blocks[j] != block),
                        ));
                    }
                    i = i + 1;
                }
            },
        }
        let ghost mid = self.state();
        assert(mid.modified == before.modified.union(
            Set::new(|i: int| 0 <= i < 4096 && before.blocks[i] != block),
        ));
        assert(mid.biomes == before.biomes);
        self.fill_blocks(block);
        assert(self.state().blocks =~= filled_marked(before, block).blocks);
        assert(self.state().modified =~= filled_marked(before, block).modified);
        assert(self.state().biomes =~= filled_marked(before, block).biomes);
    }
}

/// A chunk loaded in a world, with custom state `S`.
pub struct LoadedChunk<S> {
    /// Custom state.
    pub state: S,
    sections: Vec<ChunkSection>,
    created_this_tick: bool,
}

impl<S> LoadedChunk<S> {
    /// The chunk's sections, from the bottom.
    pub closed spec fn sections(&self) -> Seq<SectionState> {
        section_states(self.sections@)
    }

    /// Every section holds 4096 blocks and 64 biomes, and there are at most
    /// 254 sections.
    #[verifier::spinoff_prover]
    pub proof fn lemma_sections_sized(&self)
        requires
            self.wf(),
        ensures
            sections_sized(self.sections()),
            self.sections().len() <= 254,
    {
        let ss = self.sections();
        assert forall|j: int| 0 <= j < ss.len() implies #[trigger] ss[j].blocks.len() == 4096
            && ss[j].biomes.len() == 64 by {
            assert(self.sections@[j].wf());
            assert(ss[j] == self.sections@[j].state());
            self.sections@[j].lemma_lens();
        }
        assert(sections_sized(ss));
    }

    /// How each section holds its blocks and its biomes.
    pub closed spec fn section_layouts(&self) -> Seq<(Layout, Layout)> {
        self.sections@.map_values(|s: ChunkSection| (s.block_states.layout(), s.biomes.layout()))
    }

    /// The custom state.
    pub closed spec fn custom_state(&self) -> S {
        self.state
    }

    /// Whether the chunk was created during the current tick.
    pub closed spec fn created(&self) -> bool {
        self.created_this_tick
    }

    /// The internal invariant.
    pub closed spec fn wf(&self) -> bool {
        sections_wf(self.sections@)
    }

    /// Loads `chunk`, resized to `dimension_section_count` sections, with
    /// custom state `state`.
    pub fn new(chunk: UnloadedChunk, dimension_section_count: usize, state: S) -> (c: Self)
        requires
            chunk.wf(),
            dimension_section_count <= 254,
        ensures
            c.wf(),
            c.sections() == resized(chunk.sections(), dimension_section_count as nat * 16),
            c.created(),
            c.custom_state() == state,
    {
        let mut chunk = chunk;
        chunk.resize(dimension_section_count * 16);
        Self { state, sections: chunk.sections, created_this_tick: true }
    }

    /// Whether the chunk was created during the current tick.
    pub fn created_this_tick(&self) -> (b: bool)
        ensures
            b == self.created(),
    {
        self.created_this_tick
    }

    /// The height of the chunk in blocks, a multiple of 16.
    pub fn height(&self) -> (h: usize)
        requires
            self.wf(),
        ensures
            h == self.sections().len() * 16,
    {
        self.sections.len() * 16
    }

    /// The block at offsets `(x, y, z)` from the chunk's lowest corner.
    pub fn block_state(&self, x: usize, y: usize, z: usize) -> (b: BlockState)
        requires
            self.wf(),
            x < 16 && z < 16 && y < self.sections().len() * 16,
        ensures
            b == block_at(self.sections(), x as int, y as int, z as int),
    {
        assert(self.sections@[(y / 16) as int].wf());
        self.sections[y / 16].block(x + z * 16 + y % 16 * 256)
    }

    /// Sets the block at offsets `(x, y, z)`, marks it as changed when it
    /// changed, and returns the block it replaced.
    pub fn set_block_state(&mut self, x: usize, y: usize, z: usize, block: BlockState) -> (old_b:
        BlockState)
        requires
            old(self).wf(),
            x < 16 && z < 16 && y < old(self).sections().len() * 16,
        ensures
            final(self).wf(),
            final(self).created() == old(self).created(),
            final(self).custom_state() == old(self).custom_state(),
            old_b == block_at(old(self).sections(), x as int, y as int, z as int),
            final(self).sections() == if block == old_b {
                old(self).sections()
            } else {
                with_block_marked(old(self).sections(), x as int, y as int, z as int, block)
            },
    {
        let ghost before = self.sections();
        let s = y / 16;
        assert(self.sections@[s as int].wf());
        let old_b = self.sections[s].set_block_marked(x + z * 16 + y % 16 * 256, block);
        proof {
            if block == old_b {
                assert(self.sections() =~= before);
            } else {
                assert(self.sections() =~= with_block_marked(
                    before,
                    x as int,
                    y as int,
                    z as int,
                    block,
                ));
            }
        }
        old_b
    }

    /// Sets every block of the chunk to `block`, marking every block that
    /// changes.
    pub fn fill_block_states(&mut self, block: BlockState)
        requires
            old(self).wf(),
        ensures
            final(self).wf(),
            final(self).created() == old(self).created(),
            final(self).custom_state() == old(self).custom_state(),
            final(self).sections() == old(self).sections().map_values(
                |s: SectionState| filled_marked(s, block),
            ),
    {
        let ghost before = self.sections();
        let mut i: usize = 0;
        while i < self.sections.len()
            invariant
                sections_wf(self.sections@),
                self.sections@.len() == before.len(),
                0 <= i <= before.len(),
                self.created_this_tick == old(self).created_this_tick,
                self.state == old(self).state,
                forall|j: int|
                    0 <= j < before.len() ==> #[trigger] self.sections()[j] == if j < i {
                        filled_marked(before[j], block)
                    } else {
                        before[j]
                    },
            decreases before.len() - i,
        {
            assert(self.sections@[i as int].wf());
            let ghost prev = self.sections@;
            let ghost prev_state = self.sections();
            self.sections[i].fill_blocks_marked(block);
            proof {
                assert forall|j: int| 0 <= j < before.len() && j != i implies self.sections@[j]
                    == prev[j] by {}
                assert forall|j: int| 0 <= j < before.len() implies #[trigger] self.sections()[j]
                    == if j <= i {
                    filled_marked(before[j], block)
                } else {
                    before[j]
                } by {
                    assert(self.sections()[j] == self.sections@[j].state());
                    assert(prev_state[j] == prev[j].state());
                }
            }
            i = i + 1;
        }
        assert(self.sections() =~= before.map_values(|s: SectionState| filled_marked(s, block)));
    }

    /// The biome at offsets `(x, y, z)`, in biome units of four blocks.
    pub fn biome(&self, x: usize, y: usize, z: usize) -> (b: BiomeId)
        requires
            self.wf(),
            x < 4 && z < 4 && y < self.sections().len() * 4,
        ensures
            b == biome_at(self.sections(), x as int, y as int, z as int),
    {
        assert(self.sections@[(y / 4) as int].wf());
        self.sections[y / 4].biome(x + z * 4 + y % 4 * 16)
    }

    /// Sets the biome at offsets `(x, y, z)`, in biome units, and returns
    /// the one it replaced.
    pub fn set_biome(&mut self, x: usize, y: usize, z: usize, biome: BiomeId) -> (old_b: BiomeId)
        requires
            old(self).wf(),
            x < 4 && z < 4 && y < old(self).sections().len() * 4,
        ensures
            final(self).wf(),
            final(self).created() == old(self).created(),
            final(self).custom_state() == old(self).custom_state(),
            old_b == biome_at(old(self).sections(), x as int, y as int, z as int),
            final(self).sections() == with_biome(
                old(self).sections(),
                x as int,
                y as int,
                z as int,
                biome,
            ),
    {
        let ghost before = self.sections();
        let s = y / 4;
        assert(self.sections@[s as int].wf());
        let old_b = self.sections[s].set_biome(x + z * 4 + y % 4 * 16, biome);
        proof {
            assert(self.sections() =~= with_biome(before, x as int, y as int, z as int, biome));
        }
        old_b
    }

    /// Sets every biome of the chunk to `biome`.
    pub fn fill_biomes(&mut self, biome: BiomeId)
        requires
            old(self).wf(),
        ensures
            final(self).wf(),
            final(self).created() == old(self).created(),
            final(self).custom_state() == old(self).custom_state(),
            final(self).sections() == old(self).sections().map_values(
                |s: SectionState| SectionState { biomes: Seq::new(64, |i: int| biome), ..s },
            ),
    {
        let ghost before = self.sections();
        let mut i: usize = 0;
        while i < self.sections.len()
            invariant
                sections_wf(self.sections@),
                self.sections@.len() == before.len(),
                0 <= i <= before.len(),
                self.created_this_tick == old(self).created_this_tick,
                self.state == old(self).state,
                forall|j: int|
                    0 <= j < before.len() ==> #[trigger] self.sections()[j] == if j < i {
                        SectionState { biomes: Seq::new(64, |k: int| biome), ..before[j] }
                    } else {
                        before[j]
                    },
            decreases before.len() - i,
        {
            assert(self.sections@[i as int].wf());
            let ghost prev = self.sections@;
            let ghost prev_state = self.sections();
            self.sections[i].fill_biomes(biome);
            proof {
                assert forall|j: int| 0 <= j < before.len() && j != i implies self.sections@[j]
                    == prev[j] by {}
                assert forall|j: int| 0 <= j < before.len() implies #[trigger] self.sections()[j]
                    == if j <= i {
                    SectionState { biomes: Seq::new(64, |k: int| biome), ..before[j] }
                } else {
                    before[j]
                } by {
                    assert(self.sections()[j] == self.sections@[j].state());
                    assert(prev_state[j] == prev[j].state());
                }
            }
            i = i + 1;
        }
        assert(self.sections() =~= before.map_values(
            |s: SectionState| SectionState { biomes: Seq::new(64, |k: int| biome), ..s },
        ));
    }

    /// Stores every section in its most compact form; nothing observable
    /// changes.
    pub fn optimize(&mut self)
        requires
            old(self).wf(),
        ensures
            final(self).wf(),
            final(self).created() == old(self).created(),
            final(self).custom_state() == old(self).custom_state(),
            final(self).sections() == old(self).sections(),
            optimized_sections(old(self).section_layouts(), final(self).section_layouts()),
    {
        let ghost before = self.sections();
        let ghost lay0 = self.section_layouts();
        let mut i: usize = 0;
        while i < self.sections.len()
            invariant
                sections_wf(self.sections@),
                self.sections@.len() == before.len(),
                0 <= i <= before.len(),
                self.created_this_tick == old(self).created_this_tick,
                self.state == old(self).state,
                forall|j: int| 0 <= j < before.len() ==> #[trigger] self.sections()[j] == before[j],
                lay0.len() == before.len(),
                forall|j: int|
                    0 <= j < i ==> optimized_layout(#[trigger] lay0[j].0, self.section_layouts()[j].0, 4096)
                        && optimized_layout(lay0[j].1, self.section_layouts()[j].1, 64),
                forall|j: int| i <= j < before.len() ==> #[trigger] self.section_layouts()[j] == lay0[j],
            decreases before.len() - i,
        {
            assert(self.sections@[i as int].wf());
            let ghost prev = self.sections@;
            let ghost prev_state = self.sections();
            let ghost prev_lay = self.section_layouts();
            self.sections[i].optimize();
            proof {
                assert forall|j: int| 0 <= j < before.len() && j != i implies #[trigger] self.section_layouts()[j]
                    == prev_lay[j] by {
                    assert(self.sections@[j] == prev[j]);
                }
                assert(prev_lay[i as int] == lay0[i as int]);
                assert forall|j: int| 0 <= j < before.len() implies #[trigger] self.sections()[j]
                    == before[j] by {
                    assert(self.sections()[j] == self.sections@[j].state());
                    assert(prev_state[j] == prev[j].state());
                }
            }
            i = i + 1;
        }
        assert(self.sections() =~= before);
        assert(lay0 == old(self).section_layouts());
        assert(optimized_sections(lay0, self.section_layouts()));
    }

    /// Ends the tick: forgets which blocks changed, and that the chunk was
    /// just created.
    pub fn update(&mut self)
        requires
            old(self).wf(),
        ensures
            final(self).wf(),
            !final(self).created(),
            final(self).custom_state() == old(self).custom_state(),
            final(self).sections() == unmarked(old(self).sections()),
    {
        let ghost before = self.sections();
        let mut i: usize = 0;
        while i < self.sections.len()
            invariant
                sections_wf(self.sections@),
                self.sections@.len() == before.len(),
                0 <= i <= before.len(),
                self.state == old(self).state,
                forall|j: int|
                    0 <= j < before.len() ==> #[trigger] self.sections()[j] == if j < i {
                        SectionState { modified: Set::empty(), ..before[j] }
                    } else {
                        before[j]
                    },
            decreases before.len() - i,
        {
            assert(self.sections@[i as int].wf());
            let ghost prev = self.sections@;
            let ghost prev_state = self.sections();
            if self.sections[i].modified_blocks_count > 0 {
                self.sections[i].clear_modified();
            } else {
                proof {
                    self.sections@[i as int].lemma_modified_finite();
                    assert(self.sections@[i as int].modified_set() =~= Set::<int>::empty());
                }
            }
            proof {
                assert forall|j: int| 0 <= j < before.len() implies #[trigger] self.sections()[j]
                    == if j <= i {
                    SectionState { modified: Set::empty(), ..before[j] }
                } else {
                    before[j]
                } by {
                    assert(self.sections()[j] == self.sections@[j].state());
                    assert(prev_state[j] == prev[j].state());
                }
            }
            i = i + 1;
        }
        assert forall|j: int| 0 <= j < before.len() implies #[trigger] self.sections()[j] == unmarked(
            before,
        )[j] by {
            assert(unmarked(before)[j] == SectionState { modified: Set::empty(), ..before[j] });
        }
        assert(self.sections() =~= unmarked(before));
        self.created_this_tick = false;
    }

    /// The block and biome data of the chunk as the chunk data packet
    /// carries it.
    pub fn chunk_data(&self, block_bits: ElementBits, biome_bits: ElementBits) -> (v: Vec<u8>)
        requires
            self.wf(),
            sections_encodable(self.section_layouts(), block_bits, biome_bits),
        ensures
            v@ == chunk_data_bytes(
                self.sections(),
                self.section_layouts(),
                block_bits,
                biome_bits,
                self.sections().len(),
            ),
    {
        let mut w: Vec<u8> = Vec::new();
        let mut i: usize = 0;
        while i < self.sections.len()
            invariant
                sections_wf(self.sections@),
                0 <= i <= self.sections@.len(),
                sections_encodable(self.section_layouts(), block_bits, biome_bits),
                w@ == chunk_data_bytes(
                    self.sections(),
                    self.section_layouts(),
                    block_bits,
                    biome_bits,
                    i as nat,
                ),
            decreases self.sections@.len() - i,
        {
            let sect = &self.sections[i];
            assert(sect.wf());
            assert(self.section_layouts()[i as int] == (
            sect.block_states.layout(),
            sect.biomes.layout(),
            ));
            assert(encodable(self.section_layouts()[i as int].0, block_bits));
            let ghost w0 = w@;
            let n = sect.non_air_count;
            w.push((n >> 8) as u8);
            w.push(n as u8);
            sect.block_states.encode(&mut w, block_bits);
            sect.biomes.encode(&mut w, biome_bits);
            proof {
                assert(self.sections()[i as int] == sect.state());
                assert(w@ =~= w0 + be_bytes_u16(n) + layout_bytes(
                    sect.block_states.layout(),
                    block_bits,
                    4096,
                ) + layout_bytes(sect.biomes.layout(), biome_bits, 64));
            }
            i = i + 1;
        }
        w
    }
}

/// A set of one element holds just that element.
proof fn lemma_single_element(s: Set<int>, a: int)
    requires
        s.finite(),
        s.len() == 1,
        s.contains(a),
    ensures
        s.choose() == a,
{
    assert(s.remove(a).len() == 0);
    assert(s.remove(a) =~= Set::<int>::empty()) by {
        if exists|b: int| s.remove(a).contains(b) {
            let b = choose|b: int| s.remove(a).contains(b);
            assert(s.remove(a).len() > 0) by {
                vstd::set::axiom_set_remove_len(s.remove(a), b);
            }
        }
    }
    assert(s =~= Set::empty().insert(a));
}

impl ChunkSection {
    /// The first block marked as changed.
    fn first_modified(&self) -> (idx: usize)
        requires
            self.wf(),
            self.modified_blocks_count >= 1,
        ensures
            idx < 4096,
            self.state().modified.contains(idx as int),
            self.modified_blocks_count == 1 ==> idx == self.state().modified.choose(),
    {
        let mut i: usize = 0;
        while i < 4096
            invariant
                self.wf(),
                self.modified_blocks_count >= 1,
                0 <= i <= 4096,
                forall|j: int| 0 <= j < i ==> !self.state().modified.contains(j),
            decreases 4096 - i,
        {
            if self.is_block_modified(i) {
                proof {
                    self.lemma_modified_finite();
                    if self.modified_blocks_count == 1 {
                        lemma_single_element(self.state().modified, i as int);
                    }
                }
                return i;
            }
            i = i + 1;
        }
        proof {
            self.lemma_modified_finite();
            assert(self.state().modified =~= Set::<int>::empty());
        }
        0
    }

    /// The packed changes of the section's changed blocks, in order.
    fn packed_changes(&self) -> (v: Vec<i64>)
        requires
            self.wf(),
        ensures
            v@ == packed_changes(self.state(), 4096),
    {
        proof {
            self.lemma_lens();
        }
        let mut v: Vec<i64> = Vec::new();
        let mut idx: usize = 0;
        while idx < 4096
            invariant
                self.wf(),
                self.state().blocks.len() == 4096,
                0 <= idx <= 4096,
                v@ == packed_changes(self.state(), idx as nat),
            decreases 4096 - idx,
        {
            if self.is_block_modified(idx) {
                let b = self.block(idx).to_raw();
                let x = (idx % 16) as i64;
                let z = (idx / 16 % 16) as i64;
                let y = (idx / 256) as i64;
                v.push(((b as i64) << 12i64) | (x * 256 + z * 16 + y));
            }
            idx = idx + 1;
        }
        v
    }
}

impl<S> LoadedChunk<S> {
    /// The packets that announce the blocks changed this tick, section by
    /// section from the bottom, for the chunk at `pos` in a world starting
    /// at `min_y`.
    pub fn block_change_packets(&self, pos: ChunkPos, min_y: i32) -> (v: Vec<BlockChangePacket>)
        requires
            self.wf(),
            -0x800_0000 <= pos.x < 0x800_0000,
            -0x800_0000 <= pos.z < 0x800_0000,
            min_y + self.sections().len() * 16 <= 0x8000_0000,
        ensures
            v@.map_values(|p: BlockChangePacket| p@) == chunk_changes(
                pos,
                min_y,
                self.sections(),
                self.sections().len(),
            ),
    {
        let mut out: Vec<BlockChangePacket> = Vec::new();
        let mut sy: usize = 0;
        while sy < self.sections.len()
            invariant
                sections_wf(self.sections@),
                0 <= sy <= self.sections@.len(),
                -0x800_0000 <= pos.x < 0x800_0000,
                -0x800_0000 <= pos.z < 0x800_0000,
                min_y + self.sections@.len() * 16 <= 0x8000_0000,
                out@.map_values(|p: BlockChangePacket| p@) == chunk_changes(
                    pos,
                    min_y,
                    self.sections(),
                    sy as nat,
                ),
            decreases self.sections@.len() - sy,
        {
            let sect = &self.sections[sy];
            assert(sect.wf());
            assert(self.sections()[sy as int] == sect.state());
            let ghost before = out@.map_values(|p: BlockChangePacket| p@);
            proof {
                sect.lemma_modified_finite();
                sect.lemma_lens();
            }
            if sect.modified_blocks_count == 1 {
                let idx = sect.first_modified();
                let block = sect.block(idx);
                let x = pos.x * 16 + (idx % 16) as i32;
                let y = sy as i32 * 16 + (idx / 256) as i32 + min_y;
                let z = pos.z * 16 + (idx / 16 % 16) as i32;
                out.push(
                    BlockChangePacket::Single {
                        location: BlockPos { x, y, z },
                        block_id: block.to_raw() as i32,
                    },
                );
            } else if sect.modified_blocks_count > 1 {
                let blocks = sect.packed_changes();
                let position = ((pos.x as i64) << 42i64) | (((pos.z as i64) & 0x3fffff) << 20i64) | ((
                sy as i64 + crate::chunk_pos::div_euclid_16(min_y) as i64) & 0xfffff);
                out.push(BlockChangePacket::Section { position, blocks });
            }
            proof {
                assert(out@.map_values(|p: BlockChangePacket| p@) =~= before + section_changes(
                    pos,
                    min_y,
                    sy as int,
                    sect.state(),
                ));
            }
            sy = sy + 1;
        }
        out
    }
}

/// The chunk that holds the block at `pos`.
pub open spec fn chunk_of(pos: BlockPos) -> ChunkPos {
    ChunkPos { x: chunk_coord(pos.x) as i32, z: chunk_coord(pos.z) as i32 }
}

/// The contents with the block at `(x, y, z)` set to `b`.
pub open spec fn contents_with_block(
    c: Seq<(Seq<BlockState>, Seq<BiomeId>)>,
    x: int,
    y: int,
    z: int,
    b: BlockState,
) -> Seq<(Seq<BlockState>, Seq<BiomeId>)> {
    c.update(y / 16, (c[y / 16].0.update(block_index(x, y, z), b), c[y / 16].1))
}

/// The contents with the biome at `(x, y, z)`, in biome units, set to `b`.
pub open spec fn contents_with_biome(
    c: Seq<(Seq<BlockState>, Seq<BiomeId>)>,
    x: int,
    y: int,
    z: int,
    b: BiomeId,
) -> Seq<(Seq<BlockState>, Seq<BiomeId>)> {
    c.update(y / 4, (c[y / 4].0, c[y / 4].1.update(biome_index(x, y, z), b)))
}

/// Setting a block, marked as changed or not, sets it in the contents.
proof fn lemma_contents_with_block(s: Seq<SectionState>, x: int, y: int, z: int, b: BlockState)
    requires
        0 <= y / 16 < s.len(),
    ensures
        contents(with_block(s, x, y, z, b)) == contents_with_block(contents(s), x, y, z, b),
        contents(with_block_marked(s, x, y, z, b)) == contents_with_block(contents(s), x, y, z, b),
        b == s[y / 16].blocks[block_index(x, y, z)] && 0 <= block_index(x, y, z) < s[y
            / 16].blocks.len() ==> contents(s) == contents_with_block(
            contents(s),
            x,
            y,
            z,
            b,
        ),
{
    assert(contents(with_block(s, x, y, z, b)) =~= contents_with_block(contents(s), x, y, z, b));
    assert(contents(with_block_marked(s, x, y, z, b)) =~= contents_with_block(
        contents(s),
        x,
        y,
        z,
        b,
    ));
    if b == s[y / 16].blocks[block_index(x, y, z)] && 0 <= block_index(x, y, z)
        < s[y / 16].blocks.len() {
        assert(s[y / 16].blocks.update(block_index(x, y, z), b) =~= s[y / 16].blocks);
        assert(contents(s) =~= contents_with_block(contents(s), x, y, z, b));
    }
}

/// Filling a chunk with a block, marking the changes or not, fills its
/// contents.
proof fn lemma_contents_filled_blocks(before: Seq<SectionState>, after: Seq<SectionState>, b: BlockState)
    requires
        after == before.map_values(
            |s: SectionState| SectionState { blocks: Seq::new(4096, |i: int| b), ..s },
        ) || after == before.map_values(|s: SectionState| filled_marked(s, b)),
    ensures
        contents(after) == contents(before).map_values(
            |c: (Seq<BlockState>, Seq<BiomeId>)| (Seq::new(4096, |i: int| b), c.1),
        ),
{
    assert(contents(after) =~= contents(before).map_values(
        |c: (Seq<BlockState>, Seq<BiomeId>)| (Seq::new(4096, |i: int| b), c.1),
    ));
}

/// What every chunk offers: its blocks and biomes, by their position from
/// the chunk's lowest corner.
pub trait Chunk {
    /// The blocks and biomes of each section, from the bottom.
    spec fn chunk_contents(&self) -> Seq<(Seq<BlockState>, Seq<BiomeId>)>;

    /// Whether the chunk is well formed.
    spec fn chunk_wf(&self) -> bool;

    /// How each section holds its blocks and its biomes, from the bottom.
    spec fn chunk_layouts(&self) -> Seq<(Layout, Layout)>;

    /// The height of the chunk in blocks, a multiple of 16.
    fn height(&self) -> (h: usize)
        requires
            self.chunk_wf(),
        ensures
            h == self.chunk_contents().len() * 16,
    ;

    /// The block at offsets `(x, y, z)` from the chunk's lowest corner.
    fn block_state(&self, x: usize, y: usize, z: usize) -> (b: BlockState)
        requires
            self.chunk_wf(),
            x < 16 && z < 16 && y < self.chunk_contents().len() * 16,
        ensures
            b == self.chunk_contents()[y as int / 16].0[block_index(x as int, y as int, z as int)],
    ;

    /// Sets the block at offsets `(x, y, z)` and returns the one it
    /// replaced.
    fn set_block_state(&mut self, x: usize, y: usize, z: usize, block: BlockState) -> (old_b:
        BlockState)
        requires
            old(self).chunk_wf(),
            x < 16 && z < 16 && y < old(self).chunk_contents().len() * 16,
        ensures
            final(self).chunk_wf(),
            old_b == old(self).chunk_contents()[y as int / 16].0[block_index(x as int, y as int, z as int)],
            final(self).chunk_contents() == contents_with_block(
                old(self).chunk_contents(),
                x as int,
                y as int,
                z as int,
                block,
            ),
    ;

    /// Sets every block of the chunk to `block`.
    fn fill_block_states(&mut self, block: BlockState)
        requires
            old(self).chunk_wf(),
        ensures
            final(self).chunk_wf(),
            final(self).chunk_contents() == old(self).chunk_contents().map_values(
                |c: (Seq<BlockState>, Seq<BiomeId>)| (Seq::new(4096, |i: int| block), c.1),
            ),
    ;

    /// The biome at offsets `(x, y, z)`, in biome units of four blocks.
    fn biome(&self, x: usize, y: usize, z: usize) -> (b: BiomeId)
        requires
            self.chunk_wf(),
            x < 4 && z < 4 && y < self.chunk_contents().len() * 4,
        ensures
            b == self.chunk_contents()[y as int / 4].1[biome_index(x as int, y as int, z as int)],
    ;

    /// Sets the biome at offsets `(x, y, z)`, in biome units, and returns
    /// the one it replaced.
    fn set_biome(&mut self, x: usize, y: usize, z: usize, biome: BiomeId) -> (old_b: BiomeId)
        requires
            old(self).chunk_wf(),
            x < 4 && z < 4 && y < old(self).chunk_contents().len() * 4,
        ensures
            final(self).chunk_wf(),
            old_b == old(self).chunk_contents()[y as int / 4].1[biome_index(x as int, y as int, z as int)],
            final(self).chunk_contents() == contents_with_biome(
                old(self).chunk_contents(),
                x as int,
                y as int,
                z as int,
                biome,
            ),
    ;

    /// Sets every biome of the chunk to `biome`.
    fn fill_biomes(&mut self, biome: BiomeId)
        requires
            old(self).chunk_wf(),
        ensures
            final(self).chunk_wf(),
            final(self).chunk_contents() == old(self).chunk_contents().map_values(
                |c: (Seq<BlockState>, Seq<BiomeId>)| (c.0, Seq::new(64, |i: int| biome)),
            ),
    ;

    /// Stores the chunk in its most compact form; its contents stay.
    fn optimize(&mut self)
        requires
            old(self).chunk_wf(),
        ensures
            final(self).chunk_wf(),
            final(self).chunk_contents() == old(self).chunk_contents(),
            optimized_sections(old(self).chunk_layouts(), final(self).chunk_layouts()),
    ;
}

impl Chunk for UnloadedChunk {
    open spec fn chunk_contents(&self) -> Seq<(Seq<BlockState>, Seq<BiomeId>)> {
        contents(self.sections())
    }

    open spec fn chunk_wf(&self) -> bool {
        self.wf()
    }

    open spec fn chunk_layouts(&self) -> Seq<(Layout, Layout)> {
        self.section_layouts()
    }

    fn height(&self) -> (h: usize) {
        UnloadedChunk::height(self)
    }

    fn block_state(&self, x: usize, y: usize, z: usize) -> (b: BlockState) {
        UnloadedChunk::block_state(self, x, y, z)
    }

    fn set_block_state(&mut self, x: usize, y: usize, z: usize, block: BlockState) -> (old_b:
        BlockState) {
        let ghost before = self.sections();
        let old_b = UnloadedChunk::set_block_state(self, x, y, z, block);
        proof {
            lemma_contents_with_block(before, x as int, y as int, z as int, block);
        }
        old_b
    }

    fn fill_block_states(&mut self, block: BlockState) {
        let ghost before = self.sections();
        UnloadedChunk::fill_block_states(self, block);
        proof {
            lemma_contents_filled_blocks(before, self.sections(), block);
        }
    }

    fn biome(&self, x: usize, y: usize, z: usize) -> (b: BiomeId) {
        UnloadedChunk::biome(self, x, y, z)
    }

    fn set_biome(&mut self, x: usize, y: usize, z: usize, biome: BiomeId) -> (old_b: BiomeId) {
        let ghost before = self.sections();
        let old_b = UnloadedChunk::set_biome(self, x, y, z, biome);
        proof {
            assert(contents(self.sections()) =~= contents_with_biome(
                contents(before),
                x as int,
                y as int,
                z as int,
                biome,
            ));
        }
        old_b
    }

    fn fill_biomes(&mut self, biome: BiomeId) {
        let ghost before = self.sections();
        UnloadedChunk::fill_biomes(self, biome);
        proof {
            assert(contents(self.sections()) =~= contents(before).map_values(
                |c: (Seq<BlockState>, Seq<BiomeId>)| (c.0, Seq::new(64, |i: int| biome)),
            ));
        }
    }

    fn optimize(&mut self) {
        UnloadedChunk::optimize(self)
    }
}

impl<S> Chunk for LoadedChunk<S> {
    open spec fn chunk_contents(&self) -> Seq<(Seq<BlockState>, Seq<BiomeId>)> {
        contents(self.sections())
    }

    open spec fn chunk_wf(&self) -> bool {
        self.wf()
    }

    open spec fn chunk_layouts(&self) -> Seq<(Layout, Layout)> {
        self.section_layouts()
    }

    fn height(&self) -> (h: usize) {
        LoadedChunk::<S>::height(self)
    }

    fn block_state(&self, x: usize, y: usize, z: usize) -> (b: BlockState) {
        LoadedChunk::<S>::block_state(self, x, y, z)
    }

    fn set_block_state(&mut self, x: usize, y: usize, z: usize, block: BlockState) -> (old_b:
        BlockState) {
        let ghost before = self.sections();
        proof {
            let sec = self.sections@[(y / 16) as int];
            assert(sec.wf());
            sec.block_states.lemma_view_len();
        }
        let old_b = LoadedChunk::<S>::set_block_state(self, x, y, z, block);
        proof {
            lemma_contents_with_block(before, x as int, y as int, z as int, block);
        }
        old_b
    }

    fn fill_block_states(&mut self, block: BlockState) {
        let ghost before = self.sections();
        LoadedChunk::<S>::fill_block_states(self, block);
        proof {
            lemma_contents_filled_blocks(before, self.sections(), block);
        }
    }

    fn biome(&self, x: usize, y: usize, z: usize) -> (b: BiomeId) {
        LoadedChunk::<S>::biome(self, x, y, z)
    }

    fn set_biome(&mut self, x: usize, y: usize, z: usize, biome: BiomeId) -> (old_b: BiomeId) {
        let ghost before = self.sections();
        let old_b = LoadedChunk::<S>::set_biome(self, x, y, z, biome);
        proof {
            assert(contents(self.sections()) =~= contents_with_biome(
                contents(before),
                x as int,
                y as int,
                z as int,
                biome,
            ));
        }
        old_b
    }

    fn fill_biomes(&mut self, biome: BiomeId) {
        let ghost before = self.sections();
        LoadedChunk::<S>::fill_biomes(self, biome);
        proof {
            assert(contents(self.sections()) =~= contents(before).map_values(
                |c: (Seq<BlockState>, Seq<BiomeId>)| (c.0, Seq::new(64, |i: int| biome)),
            ));
        }
    }

    fn optimize(&mut self) {
        LoadedChunk::<S>::optimize(self)
    }
}

/// The loaded chunks of a world, by position, all of the world's height.
pub struct Chunks<S> {
    chunks: HashMap<u64, LoadedChunk<S>>,
    dimension_height: i32,
    dimension_min_y: i32,
}

impl<S> Chunks<S> {
    /// The loaded chunks.
    pub closed spec fn chunks(&self) -> Map<ChunkPos, LoadedChunk<S>> {
        Map::new(
            |p: ChunkPos| self.chunks@.contains_key(chunk_key(p)),
            |p: ChunkPos| self.chunks@[chunk_key(p)],
        )
    }

    /// The height of the world in blocks.
    pub closed spec fn world_height(&self) -> int {
        self.dimension_height as int
    }

    /// The lowest Y coordinate of the world.
    pub closed spec fn world_min_y(&self) -> int {
        self.dimension_min_y as int
    }

    /// Every loaded chunk is well formed and as high as the world, with
    /// 4096 blocks and 64 biomes in each section.
    pub proof fn lemma_chunks_sized(&self)
        requires
            self.wf(),
        ensures
            forall|p: ChunkPos|
                #[trigger] self.chunks().contains_key(p) ==> self.chunks()[p].wf()
                    && self.chunks()[p].sections().len() * 16 == self.world_height()
                    && sections_sized(self.chunks()[p].sections()),
    {
        assert forall|p: ChunkPos| #[trigger] self.chunks().contains_key(p) implies self.chunks()[p].wf()
            && self.chunks()[p].sections().len() * 16 == self.world_height()
            && sections_sized(self.chunks()[p].sections()) by {
            assert(self.chunks@.contains_key(chunk_key(p)));
            self.chunks()[p].lemma_sections_sized();
        }
    }

    /// The internal invariant: the height is a multiple of 16 of at most
    /// 4064 blocks, and every chunk is that high.
    pub closed spec fn wf(&self) -> bool {
        &&& 0 <= self.dimension_height <= 4064
        &&& self.dimension_height % 16 == 0
        &&& forall|k: u64|
            #[trigger] self.chunks@.contains_key(k) ==> self.chunks@[k].wf()
                && self.chunks@[k].sections().len() * 16 == self.dimension_height
    }

    /// No chunks, in a world `dimension_height` blocks high from
    /// `dimension_min_y` up.
    pub fn new(dimension_height: i32, dimension_min_y: i32) -> (c: Self)
        requires
            0 <= dimension_height <= 4064,
            dimension_height % 16 == 0,
        ensures
            c.wf(),
            c.chunks() == Map::<ChunkPos, LoadedChunk<S>>::empty(),
            c.world_height() == dimension_height,
            c.world_min_y() == dimension_min_y,
    {
        let c = Self { chunks: HashMap::new(), dimension_height, dimension_min_y };
        assert(c.chunks() =~= Map::<ChunkPos, LoadedChunk<S>>::empty());
        c
    }

    /// Loads `chunk` at `pos`, resized to the height of the world, with
    /// custom state `state`; a chunk loaded there before is dropped.
    pub fn insert(&mut self, pos: ChunkPos, chunk: UnloadedChunk, state: S)
        requires
            old(self).wf(),
            chunk.wf(),
        ensures
            final(self).wf(),
            final(self).world_height() == old(self).world_height(),
            final(self).world_min_y() == old(self).world_min_y(),
            final(self).chunks().dom() == old(self).chunks().dom().insert(pos),
            forall|p: ChunkPos| p != pos && old(self).chunks().contains_key(p) ==> #[trigger] final(self).chunks()[p] == old(self).chunks()[p],
            final(self).chunks()[pos].sections() == resized(
                chunk.sections(),
                old(self).world_height() as nat,
            ),
            final(self).chunks()[pos].created(),
            final(self).chunks()[pos].custom_state() == state,
    {
        let loaded = LoadedChunk::new(chunk, (self.dimension_height / 16) as usize, state);
        let ghost before = self.chunks@;
        self.chunks.insert(chunk_key_of(pos), loaded);
        proof {
            assert forall|p: ChunkPos| p != pos implies chunk_key(p) != chunk_key(pos) by {
                lemma_chunk_key_injective(p, pos);
            }
            assert(self.chunks().dom() =~= old(self).chunks().dom().insert(pos));
        }
    }

    /// Unloads the chunk at `pos`, if there is one, and returns it, its
    /// record of changed blocks cleared, with its custom state.
    pub fn remove(&mut self, pos: ChunkPos) -> (r: Option<(UnloadedChunk, S)>)
        requires
            old(self).wf(),
        ensures
            final(self).wf(),
            final(self).world_height() == old(self).world_height(),
            final(self).world_min_y() == old(self).world_min_y(),
            final(self).chunks() == old(self).chunks().remove(pos),
            match r {
                Some((c, st)) => old(self).chunks().contains_key(pos) && c.wf() && c.sections()
                    == unmarked(old(self).chunks()[pos].sections()) && st == old(
                    self,
                ).chunks()[pos].custom_state(),
                None => !old(self).chunks().contains_key(pos),
            },
    {
        let ghost before = self.chunks();
        let r = self.chunks.remove(&chunk_key_of(pos));
        proof {
            assert forall|p: ChunkPos| p != pos implies chunk_key(p) != chunk_key(pos) by {
                lemma_chunk_key_injective(p, pos);
            }
            assert(self.chunks() =~= before.remove(pos));
        }
        match r {
            Some(loaded) => {
                let mut loaded = loaded;
                loaded.update();
                Some((UnloadedChunk { sections: loaded.sections }, loaded.state))
            },
            None => None,
        }
    }

    /// The height of the world, and of every chunk, in blocks.
    pub fn height(&self) -> (h: usize)
        requires
            self.wf(),
        ensures
            h == self.world_height(),
    {
        self.dimension_height as usize
    }

    /// The lowest Y coordinate of the world.
    pub fn min_y(&self) -> (y: i32)
        ensures
            y == self.world_min_y(),
    {
        self.dimension_min_y
    }

    /// The number of loaded chunks.
    pub fn len(&self) -> (n: usize)
        ensures
            n == self.chunks().dom().len(),
    {
        proof {
            self.lemma_dom_len();
        }
        self.chunks.len()
    }

    /// Whether no chunk is loaded.
    pub fn is_empty(&self) -> (b: bool)
        ensures
            b == (self.chunks().dom().len() == 0),
    {
        proof {
            self.lemma_dom_len();
        }
        self.chunks.len() == 0
    }

    proof fn lemma_dom_len(&self)
        ensures
            self.chunks().dom().len() == self.chunks@.dom().len(),
            self.chunks().dom().finite(),
    {
        let g = |k: u64| chunk_of_key(k);
        assert forall|a: u64, b: u64|
            self.chunks@.dom().contains(a) && self.chunks@.dom().contains(b) && #[trigger] g(a)
                == #[trigger] g(b) implies a == b by {
            lemma_chunk_key_onto(a);
            lemma_chunk_key_onto(b);
        }
        assert forall|p: ChunkPos| self.chunks().dom().contains(p) implies #[trigger] self.chunks@.dom().map(
            g,
        ).contains(p) by {
            lemma_chunk_key_injective(chunk_of_key(chunk_key(p)), p);
            lemma_chunk_key_onto(chunk_key(p));
            assert(g(chunk_key(p)) == p);
        }
        assert forall|p: ChunkPos| #[trigger] self.chunks@.dom().map(g).contains(p) implies self.chunks().dom().contains(p) by {
            let k = choose|k: u64| self.chunks@.dom().contains(k) && g(k) == p;
            lemma_chunk_key_onto(k);
        }
        assert(self.chunks@.dom().map(g) =~= self.chunks().dom());
        vstd::set_lib::lemma_map_size(self.chunks@.dom(), self.chunks().dom(), g);
    }

    /// Ends the tick in every loaded chunk: each forgets which blocks
    /// changed and that it was just created.
    pub fn update(&mut self)
        requires
            old(self).wf(),
        ensures
            final(self).wf(),
            final(self).world_height() == old(self).world_height(),
            final(self).world_min_y() == old(self).world_min_y(),
            final(self).chunks().dom() == old(self).chunks().dom(),
            forall|p: ChunkPos|
                #[trigger] old(self).chunks().contains_key(p) ==> {
                    &&& final(self).chunks()[p].sections() == unmarked(old(self).chunks()[p].sections())
                    &&& !final(self).chunks()[p].created()
                    &&& final(self).chunks()[p].custom_state() == old(self).chunks()[p].custom_state()
                },
    {
        let ghost orig = self.chunks@;
        let mut keys: Vec<u64> = Vec::new();
        let ghost ks = self.chunks.keys().remaining();
        for k in it: self.chunks.keys()
            invariant
                it.seq() == ks,
                keys@.len() == it.index(),
                forall|i: int| 0 <= i < it.index() ==> keys@[i] == *ks[i],
        {
            keys.push(*k);
        }
        proof {
            assert(ks.unref().to_set() == orig.dom());
            assert(keys@ =~= ks.unref());
        }
        let mut i: usize = 0;
        while i < keys.len()
            invariant
                0 <= i <= keys@.len(),
                keys@.no_duplicates(),
                keys@.to_set() == orig.dom(),
                0 <= self.dimension_height <= 4064,
                self.dimension_height % 16 == 0,
                self.dimension_height == old(self).dimension_height,
                self.dimension_min_y == old(self).dimension_min_y,
                orig == old(self).chunks@,
                self.chunks@.dom() == orig.dom(),
                forall|k: u64|
                    #[trigger] self.chunks@.contains_key(k) ==> self.chunks@[k].wf()
                        && self.chunks@[k].sections().len() * 16 == self.dimension_height,
                forall|k: u64|
                    #[trigger] orig.contains_key(k) ==> if keys@.subrange(0, i as int).contains(k) {
                        &&& self.chunks@[k].sections() == unmarked(orig[k].sections())
                        &&& !self.chunks@[k].created()
                        &&& self.chunks@[k].custom_state() == orig[k].custom_state()
                    } else {
                        self.chunks@[k] == orig[k]
                    },
            decreases keys@.len() - i,
        {
            let k = keys[i];
            proof {
                assert(keys@.to_set().contains(k));
                assert(!keys@.subrange(0, i as int).contains(k));
                let pre = keys@.subrange(0, i as int);
                let post = keys@.subrange(0, i + 1);
                assert(post =~= pre.push(k));
                assert forall|j: u64| post.contains(j) <==> (pre.contains(j) || j == k) by {
                    if post.contains(j) {
                        let t = choose|t: int| 0 <= t < post.len() && post[t] == j;
                        if t < i {
                            assert(pre[t] == j);
                        }
                    }
                    if pre.contains(j) {
                        let t = choose|t: int| 0 <= t < pre.len() && pre[t] == j;
                        assert(post[t] == j);
                    }
                    if j == k {
                        assert(post[i as int] == j);
                    }
                }
            }
            match self.chunks.remove(&k) {
                Some(c) => {
                    let mut c = c;
                    c.update();
                    self.chunks.insert(k, c);
                },
                None => {},
            }
            i = i + 1;
        }
        proof {
            assert(keys@.subrange(0, keys@.len() as int) =~= keys@);
            assert(self.chunks().dom() =~= old(self).chunks().dom());
        }
    }

    /// The chunk at `pos`, if one is loaded.
    pub fn get(&self, pos: ChunkPos) -> (c: Option<&LoadedChunk<S>>)
        ensures
            match c {
                Some(c) => self.chunks().contains_key(pos) && *c == self.chunks()[pos],
                None => !self.chunks().contains_key(pos),
            },
    {
        self.chunks.get(&chunk_key_of(pos))
    }

    /// Unloads every chunk.
    pub fn clear(&mut self)
        requires
            old(self).wf(),
        ensures
            final(self).wf(),
            final(self).chunks() == Map::<ChunkPos, LoadedChunk<S>>::empty(),
            final(self).world_height() == old(self).world_height(),
            final(self).world_min_y() == old(self).world_min_y(),
    {
        self.chunks.clear();
        assert(self.chunks() =~= Map::<ChunkPos, LoadedChunk<S>>::empty());
    }

    /// The positions of the loaded chunks, in no particular order.
    pub fn positions(&self) -> (v: Vec<ChunkPos>)
        ensures
            v@.no_duplicates(),
            v@.to_set() == self.chunks().dom(),
    {
        let mut out: Vec<ChunkPos> = Vec::new();
        let ghost ks = self.chunks.keys().remaining();
        for k in it: self.chunks.keys()
            invariant
                it.seq() == ks,
                ks.no_duplicates(),
                ks.unref().to_set() == self.chunks@.dom(),
                out@.len() == it.index(),
                forall|i: int| 0 <= i < it.index() ==> out@[i] == pos_of_key(*ks[i]),
        {
            out.push(pos_of_key_exec(*k));
        }
        proof {
            assert forall|i: int, j: int|
                0 <= i < out@.len() && 0 <= j < out@.len() && i != j implies out@[i] != out@[j] by {
                lemma_pos_of_key_roundtrip(*ks[i]);
                lemma_pos_of_key_roundtrip(*ks[j]);
            }
            assert forall|p: ChunkPos| out@.contains(p) <==> self.chunks().dom().contains(p) by {
                if out@.contains(p) {
                    let i = choose|i: int| 0 <= i < out@.len() && out@[i] == p;
                    lemma_pos_of_key_roundtrip(*ks[i]);
                    assert(ks.unref()[i] == *ks[i]);
                    assert(ks.unref().contains(*ks[i]));
                    assert(ks.unref().to_set().contains(*ks[i]));
                }
                if self.chunks().dom().contains(p) {
                    assert(self.chunks@.dom().contains(chunk_key(p)));
                    assert(ks.unref().to_set().contains(chunk_key(p)));
                    let i = choose|i: int| 0 <= i < ks.len() && ks.unref()[i] == chunk_key(p);
                    assert(*ks[i] == chunk_key(p));
                    lemma_pos_of_key_roundtrip(chunk_key(p));
                    lemma_chunk_key_injective(pos_of_key(chunk_key(p)), p);
                    assert(out@[i] == p);
                }
            }
            assert(out@.to_set() =~= self.chunks().dom());
        }
        out
    }

    /// Unloads the chunks for which `f` does not hold. `f` is asked once for
    /// each chunk.
    pub fn retain(&mut self, f: impl Fn(ChunkPos, &LoadedChunk<S>) -> bool)
        requires
            old(self).wf(),
            forall|p: ChunkPos, c: &LoadedChunk<S>| f.requires((p, c)),
        ensures
            final(self).wf(),
            final(self).world_height() == old(self).world_height(),
            final(self).world_min_y() == old(self).world_min_y(),
            forall|p: ChunkPos|
                #[trigger] final(self).chunks().contains_key(p) ==> old(self).chunks().contains_key(p)
                    && final(self).chunks()[p] == old(self).chunks()[p] && f.ensures(
                    (p, &old(self).chunks()[p]),
                    true,
                ),
            forall|p: ChunkPos|
                #[trigger] old(self).chunks().contains_key(p) && !final(self).chunks().contains_key(p)
                    ==> f.ensures((p, &old(self).chunks()[p]), false),
    {
        let positions = self.positions();
        let ghost orig = self.chunks();
        let mut i: usize = 0;
        while i < positions.len()
            invariant
                0 <= i <= positions@.len(),
                positions@.no_duplicates(),
                positions@.to_set() == orig.dom(),
                orig == old(self).chunks(),
                self.wf(),
                self.dimension_height == old(self).dimension_height,
                self.dimension_min_y == old(self).dimension_min_y,
                forall|x: ChunkPos, c: &LoadedChunk<S>| f.requires((x, c)),
                forall|p: ChunkPos|
                    #[trigger] self.chunks().contains_key(p) ==> orig.contains_key(p)
                        && self.chunks()[p] == orig[p],
                forall|p: ChunkPos|
                    #[trigger] orig.contains_key(p) && !positions@.take(i as int).contains(p)
                        ==> self.chunks().contains_key(p),
                forall|p: ChunkPos|
                    #[trigger] orig.contains_key(p) && positions@.take(i as int).contains(p)
                        && self.chunks().contains_key(p) ==> f.ensures((p, &orig[p]), true),
                forall|p: ChunkPos|
                    #[trigger] orig.contains_key(p) && !self.chunks().contains_key(p) ==> f.ensures(
                        (p, &orig[p]),
                        false,
                    ),
            decreases positions@.len() - i,
        {
            let p = positions[i];
            let ghost prev = positions@.take(i as int);
            let ghost nxt = positions@.take(i + 1);
            proof {
                assert(nxt =~= prev.push(p));
                assert(orig.contains_key(p)) by {
                    assert(positions@.to_set().contains(p));
                }
            }
            let ghost before = self.chunks();
            let keep = match self.chunks.get(&chunk_key_of(p)) {
                Some(c) => f(p, c),
                None => true,
            };
            if !keep {
                self.chunks.remove(&chunk_key_of(p));
                proof {
                    assert forall|q: ChunkPos| q != p implies chunk_key(q) != chunk_key(p) by {
                        lemma_chunk_key_injective(q, p);
                    }
                    assert(self.chunks() =~= before.remove(p));
                }
            }
            proof {
                assert forall|q: ChunkPos|
                    #[trigger] orig.contains_key(q) && !nxt.contains(q) implies self.chunks().contains_key(q) by {
                    assert(nxt[i as int] == p);
                    if prev.contains(q) {
                        let j = choose|j: int| 0 <= j < prev.len() && prev[j] == q;
                        assert(nxt[j] == q);
                    }
                    assert(before.contains_key(q));
                }
                assert forall|q: ChunkPos|
                    #[trigger] orig.contains_key(q) && nxt.contains(q) && self.chunks().contains_key(q)
                        implies f.ensures((q, &orig[q]), true) by {
                    if q != p {
                        let j = choose|j: int| 0 <= j < nxt.len() && nxt[j] == q;
                        assert(j != i);
                        assert(prev[j] == q);
                    }
                }
            }
            i = i + 1;
        }
        proof {
            assert(positions@.take(positions@.len() as int) =~= positions@);
            assert forall|p: ChunkPos| #[trigger] self.chunks().contains_key(p) implies f.ensures(
                (p, &orig[p]),
                true,
            ) by {
                assert(positions@.to_set().contains(p));
            }
        }
    }

    /// The block at `pos` in the world, if its chunk is loaded and it is
    /// within the world's height.
    pub fn block_state(&self, pos: BlockPos) -> (b: Option<BlockState>)
        requires
            self.wf(),
        ensures
            match b {
                Some(b) => {
                    let cp = chunk_of(pos);
                    &&& self.chunks().contains_key(cp)
                    &&& 0 <= pos.y - self.world_min_y() < self.world_height()
                    &&& b == block_at(
                        self.chunks()[cp].sections(),
                        pos.x - cp.x * 16,
                        pos.y - self.world_min_y(),
                        pos.z - cp.z * 16,
                    )
                },
                None => !(self.chunks().contains_key(chunk_of(pos)) && 0 <= pos.y
                    - self.world_min_y() < self.world_height()),
            },
    {
        let cp = ChunkPos::from_block_pos(pos);
        let chunk = match self.get(cp) {
            Some(c) => c,
            None => return None,
        };
        assert(self.chunks@.contains_key(chunk_key(cp)));
        let y = match pos.y.checked_sub(self.dimension_min_y) {
            Some(y) => y,
            None => return None,
        };
        if y < 0 {
            return None;
        }
        let y = y as usize;
        if y < chunk.height() {
            Some(chunk.block_state((pos.x - cp.x * 16) as usize, y, (pos.z - cp.z * 16) as usize))
        } else {
            None
        }
    }

    /// Sets the block at `pos` in the world and returns `true`, if its
    /// chunk is loaded and it is within the world's height; returns `false`
    /// and changes nothing otherwise. A block that changes is marked as
    /// changed in its chunk.
    pub fn set_block_state(&mut self, pos: BlockPos, block: BlockState) -> (done: bool)
        requires
            old(self).wf(),
        ensures
            final(self).wf(),
            final(self).world_height() == old(self).world_height(),
            final(self).world_min_y() == old(self).world_min_y(),
            done == (old(self).chunks().contains_key(chunk_of(pos)) && 0 <= pos.y - old(
                self,
            ).world_min_y() < old(self).world_height()),
            !done ==> final(self).chunks() == old(self).chunks(),
            done ==> {
                let cp = chunk_of(pos);
                let before = old(self).chunks()[cp];
                let (x, y, z) = (pos.x - cp.x * 16, pos.y - old(self).world_min_y(), pos.z - cp.z * 16);
                &&& final(self).chunks().dom() == old(self).chunks().dom()
                &&& forall|p: ChunkPos| p != cp && old(self).chunks().contains_key(p) ==> #[trigger] final(self).chunks()[p] == old(self).chunks()[p]
                &&& final(self).chunks()[cp].created() == before.created()
                &&& final(self).chunks()[cp].custom_state() == before.custom_state()
                &&& final(self).chunks()[cp].sections() == if block_at(before.sections(), x, y, z) == block {
                    before.sections()
                } else {
                    with_block_marked(before.sections(), x, y, z, block)
                }
            },
    {
        let cp = ChunkPos::from_block_pos(pos);
        let key = chunk_key_of(cp);
        let ghost before = self.chunks();
        let y = match pos.y.checked_sub(self.dimension_min_y) {
            Some(y) => y,
            None => return false,
        };
        if y < 0 || y >= self.dimension_height {
            return false;
        }
        match self.chunks.remove(&key) {
            Some(chunk) => {
                let mut chunk = chunk;
                chunk.set_block_state(
                    (pos.x - cp.x * 16) as usize,
                    y as usize,
                    (pos.z - cp.z * 16) as usize,
                    block,
                );
                self.chunks.insert(key, chunk);
                proof {
                    assert forall|p: ChunkPos| p != cp implies chunk_key(p) != key by {
                        lemma_chunk_key_injective(p, cp);
                    }
                    assert(self.chunks().dom() =~= before.dom());
                }
                true
            },
            None => false,
        }
    }
}

/// The chunk position whose key is `k`.
spec fn chunk_of_key(k: u64) -> ChunkPos {
    ChunkPos { x: ((k >> 32u64) as u32) as i32, z: (k as u32) as i32 }
}

/// Every key is the key of the chunk position it unpacks to.
proof fn lemma_chunk_key_onto(k: u64)
    ensures
        chunk_key(chunk_of_key(k)) == k,
{
    let hi = (k >> 32u64) as u32;
    let lo = k as u32;
    let p = chunk_of_key(k);
    assert((((hi as i32) as u32) as u64) << 32u64 | (((lo as i32) as u32) as u64) == k) by (bit_vector)
        requires
            hi == (k >> 32u64) as u32,
            lo == k as u32,
    ;
    assert(chunk_key(p) == k);
}

/// Every section holds 4096 blocks and 64 biomes.
pub open spec fn sections_sized(s: Seq<SectionState>) -> bool {
    forall|j: int| 0 <= j < s.len() ==> #[trigger] s[j].blocks.len() == 4096 && s[j].biomes.len() == 64
}

/// Reading a block after writing one: the block written reads back, and
/// every other block reads as before; whether the write is recorded as a
/// change or not.
pub proof fn chunk_set_get_law(
    s: Seq<SectionState>,
    x: int,
    y: int,
    z: int,
    b: BlockState,
    x2: int,
    y2: int,
    z2: int,
)
    requires
        sections_sized(s),
        0 <= x < 16 && 0 <= z < 16 && 0 <= y < s.len() * 16,
        0 <= x2 < 16 && 0 <= z2 < 16 && 0 <= y2 < s.len() * 16,
    ensures
        block_at(with_block(s, x, y, z, b), x2, y2, z2) == if x == x2 && y == y2 && z == z2 {
            b
        } else {
            block_at(s, x2, y2, z2)
        },
        block_at(with_block_marked(s, x, y, z, b), x2, y2, z2) == block_at(
            with_block(s, x, y, z, b),
            x2,
            y2,
            z2,
        ),
{
    assert(0 <= block_index(x, y, z) < 4096);
    assert(0 <= block_index(x2, y2, z2) < 4096);
    if y / 16 == y2 / 16 && block_index(x, y, z) == block_index(x2, y2, z2) {
        assert(y % 16 == y2 % 16);
        assert(x == x2 && z == z2);
        assert(y == y2);
    }
}

/// Position `k` of a chunk in the order of sections from the bottom, then
/// of index within the section: `(x, y, z)`.
pub open spec fn nth_position(k: int) -> (int, int, int) {
    let sy = k / 4096;
    let idx = k % 4096;
    (idx % 16, sy * 16 + idx / 256, (idx / 16) % 16)
}

/// The sections after the first `n` blocks, in the order of
/// `nth_position`, are set one at a time to `b` as a loaded chunk sets
/// them: unchanged when already `b`, else set and marked as changed.
pub open spec fn set_first_blocks(s: Seq<SectionState>, b: BlockState, n: nat) -> Seq<SectionState>
    decreases n,
{
    if n == 0 {
        s
    } else {
        let prev = set_first_blocks(s, b, (n - 1) as nat);
        let (x, y, z) = nth_position(n - 1);
        if block_at(prev, x, y, z) == b {
            prev
        } else {
            with_block_marked(prev, x, y, z, b)
        }
    }
}

proof fn lemma_index_parts(idx: u32)
    by (bit_vector)
    requires
        idx < 4096,
    ensures
        idx % 16 + ((idx / 16) % 16) * 16 + (idx / 256) * 256 == idx,
        idx / 256 < 16,
{
}

proof fn lemma_nth_position(k: int)
    requires
        0 <= k,
    ensures
        ({
            let (x, y, z) = nth_position(k);
            &&& 0 <= x < 16 && 0 <= z < 16
            &&& y / 16 == k / 4096
            &&& block_index(x, y, z) == k % 4096
            &&& 0 <= y
        }),
{
    let idx = k % 4096;
    lemma_index_parts(idx as u32);
    let sy = k / 4096;
    let y = sy * 16 + idx / 256;
    assert(y / 16 == sy && y % 16 == idx / 256) by {
        vstd::arithmetic::div_mod::lemma_fundamental_div_mod_converse(y, 16, sy, idx / 256);
    }
}

/// The sections after the first `n` blocks are set: each block before
/// position `n` is `b`, marked if it was not; the rest are as before.
proof fn lemma_set_first_blocks(s: Seq<SectionState>, b: BlockState, n: nat)
    requires
        sections_sized(s),
        n <= s.len() * 4096,
    ensures
        set_first_blocks(s, b, n).len() == s.len(),
        forall|j: int|
            0 <= j < s.len() ==> #[trigger] set_first_blocks(s, b, n)[j] == (SectionState {
                blocks: Seq::new(
                    4096,
                    |i: int|
                        if j * 4096 + i < n {
                            b
                        } else {
                            s[j].blocks[i]
                        },
                ),
                biomes: s[j].biomes,
                modified: s[j].modified.union(
                    Set::new(|i: int| 0 <= i < 4096 && j * 4096 + i < n && s[j].blocks[i] != b),
                ),
            }),
    decreases n,
{
    if n == 0 {
        assert forall|j: int| 0 <= j < s.len() implies #[trigger] set_first_blocks(s, b, 0)[j] == (SectionState {
            blocks: Seq::new(4096, |i: int| if j * 4096 + i < 0 { b } else { s[j].blocks[i] }),
            biomes: s[j].biomes,
            modified: s[j].modified.union(
                Set::new(|i: int| 0 <= i < 4096 && j * 4096 + i < 0 && s[j].blocks[i] != b),
            ),
        }) by {
            assert(j * 4096 >= 0) by (nonlinear_arith)
                requires
                    j >= 0,
            ;
            assert(Seq::new(4096, |i: int| if j * 4096 + i < 0 { b } else { s[j].blocks[i] }) =~= s[j].blocks);
            assert(s[j].modified.union(
                Set::new(|i: int| 0 <= i < 4096 && j * 4096 + i < 0 && s[j].blocks[i] != b),
            ) =~= s[j].modified);
        }
    } else {
        let m = (n - 1) as nat;
        lemma_set_first_blocks(s, b, m);
        let prev = set_first_blocks(s, b, m);
        lemma_nth_position(m as int);
        let (x, y, z) = nth_position(m as int);
        let sy = m / 4096;
        let idx = m % 4096;
        assert(0 <= sy < s.len()) by {
            vstd::arithmetic::div_mod::lemma_div_is_ordered(m as int, (s.len() * 4096 - 1) as int, 4096);
            assert((s.len() * 4096 - 1) / 4096 == s.len() - 1) by {
                vstd::arithmetic::div_mod::lemma_fundamental_div_mod_converse(
                    (s.len() * 4096 - 1) as int,
                    4096,
                    (s.len() - 1) as int,
                    4095,
                );
            }
        }
        assert(m == sy * 4096 + idx) by {
            vstd::arithmetic::div_mod::lemma_fundamental_div_mod(m as int, 4096);
        }
        let cur = set_first_blocks(s, b, n);
        assert forall|j: int| 0 <= j < s.len() implies #[trigger] cur[j] == (SectionState {
            blocks: Seq::new(4096, |i: int| if j * 4096 + i < n { b } else { s[j].blocks[i] }),
            biomes: s[j].biomes,
            modified: s[j].modified.union(
                Set::new(|i: int| 0 <= i < 4096 && j * 4096 + i < n && s[j].blocks[i] != b),
            ),
        }) by {
            if j == sy {
                assert(prev[j].blocks[idx as int] == s[j].blocks[idx as int]);
                assert(cur[j].blocks =~= Seq::new(
                    4096,
                    |i: int| if j * 4096 + i < n { b } else { s[j].blocks[i] },
                ));
                assert(cur[j].modified =~= s[j].modified.union(
                    Set::new(|i: int| 0 <= i < 4096 && j * 4096 + i < n && s[j].blocks[i] != b),
                ));
            } else {
                assert(cur[j] == prev[j]);
                if j < sy {
                    assert(j * 4096 + 4096 <= sy * 4096) by (nonlinear_arith)
                        requires
                            j < sy,
                    ;
                } else {
                    assert(j * 4096 >= sy * 4096 + 4096) by (nonlinear_arith)
                        requires
                            j > sy,
                    ;
                }
                assert(Seq::new(4096, |i: int| if j * 4096 + i < n { b } else { s[j].blocks[i] })
                    =~= Seq::new(4096, |i: int| if j * 4096 + i < m { b } else { s[j].blocks[i] }));
                assert(Set::new(
                    |i: int| 0 <= i < 4096 && j * 4096 + i < n && s[j].blocks[i] != b,
                ) =~= Set::new(
                    |i: int| 0 <= i < 4096 && j * 4096 + i < m && s[j].blocks[i] != b,
                ));
            }
        }
    }
}

/// Filling a chunk with a block is the same as setting every block to it
/// one at a time: the same blocks result, and the same blocks are marked
/// as changed.
pub proof fn fill_is_set_every_block_law(s: Seq<SectionState>, b: BlockState)
    requires
        sections_sized(s),
    ensures
        set_first_blocks(s, b, s.len() * 4096) == s.map_values(
            |sec: SectionState| filled_marked(sec, b),
        ),
{
    let n = s.len() * 4096;
    lemma_set_first_blocks(s, b, n);
    let all = set_first_blocks(s, b, n);
    assert forall|j: int| 0 <= j < s.len() implies #[trigger] all[j] == filled_marked(s[j], b) by {
        assert(j * 4096 + 4096 <= n) by (nonlinear_arith)
            requires
                j < s.len(),
                n == s.len() * 4096,
        ;
        assert(all[j].blocks =~= Seq::new(4096, |i: int| b));
        assert(all[j].modified =~= filled_marked(s[j], b).modified);
    }
    assert(all =~= s.map_values(|sec: SectionState| filled_marked(sec, b)));
}

/// Resizing a chunk to `height` blocks keeps every block below both heights
/// and makes every block above the old height air.
pub proof fn resize_blocks_law(s: Seq<SectionState>, height: nat, x: int, y: int, z: int)
    requires
        height % 16 == 0,
        0 <= x < 16 && 0 <= z < 16 && 0 <= y < height,
    ensures
        y < s.len() * 16 ==> block_at(resized(s, height), x, y, z) == block_at(s, x, y, z),
        y >= s.len() * 16 ==> block_at(resized(s, height), x, y, z) == (BlockState {
            raw: 0,
            air: true,
        }),
{
    assert(0 <= block_index(x, y, z) < 4096);
    assert(y / 16 < height / 16);
}

/// Resizing a chunk to `height` blocks keeps every biome below both heights
/// and gives every biome above the old height the default biome; biome
/// coordinates count units of four blocks.
pub proof fn resize_biomes_law(s: Seq<SectionState>, height: nat, x: int, y: int, z: int)
    requires
        height % 16 == 0,
        0 <= x < 4 && 0 <= z < 4 && 0 <= y < height / 4,
    ensures
        y < s.len() * 4 ==> biome_at(resized(s, height), x, y, z) == biome_at(s, x, y, z),
        y >= s.len() * 4 ==> biome_at(resized(s, height), x, y, z) == BiomeId(0),
{
    assert(0 <= biome_index(x, y, z) < 64);
    assert(y / 4 < height / 16);
}

} // verus!
