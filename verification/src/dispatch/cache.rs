//! The physically keyed block cache: an open-addressed table with a bounded probe, an O(1)
//! whole-cache flush and page-granular invalidation.
//!
//! A flush bumps the generation: a stored block whose generation differs is invisible (an empty
//! slot for probing) and is overwritten by the next insert on its chain. Correctness never
//! depends on a hit: any lookup may miss and the caller rebuilds the block.

use std::collections::BTreeSet;
use vstd::prelude::*;
use super::{lemma_block_view, BlockModel, DecodedBlock};

verus! {

broadcast use vstd::laws_cmp::group_laws_cmp, vstd::std_specs::btree::group_btree_axioms;

/// Probe length of the open-addressed table. A miss only costs a rebuild, so a short bounded
/// probe keeps lookup O(1) with a replace-on-full policy.
pub const MAX_PROBE: usize = 8;

/// `2^e`.
pub open spec fn power_of_two(e: nat) -> nat
    decreases e,
{
    if e == 0 { 1 } else { 2 * power_of_two((e - 1) as nat) }
}

proof fn lemma_power_of_two_monotone(a: nat, b: nat)
    requires a <= b,
    ensures power_of_two(a) <= power_of_two(b),
    decreases b,
{
    if b > a {
        lemma_power_of_two_monotone(a, (b - 1) as nat);
    }
}

/// Half the address space is a power of two.
proof fn lemma_half_space() -> (k: nat)
    ensures power_of_two(k) == usize::MAX / 2 + 1,
{
    assert(usize::MAX == 0xffff_ffff || usize::MAX == 0xffff_ffff_ffff_ffff);
    if usize::MAX == 0xffff_ffff {
        reveal_with_fuel(power_of_two, 32);
        31
    } else {
        reveal_with_fuel(power_of_two, 64);
        63
    }
}

/// Masking lands at or below the mask, and masking twice changes nothing.
pub proof fn lemma_mask(x: usize, m: usize)
    by (bit_vector)
    ensures x & m <= m, (x & m) & m == x & m,
{
}

/// The slot count a cache asked for `n` slots gets: the least power of two that is at least
/// `max(n, 1)`.
pub open spec fn rounded_capacity(n: usize, cap: nat) -> bool {
    &&& exists|e: nat| power_of_two(e) == cap
    &&& cap >= n && cap >= 1
    &&& (cap == 1 || cap / 2 < n)
}

/// The multiplicative hash of a physical PC, folded into the table.
pub open spec fn hash_spec(phys: u64, mask: usize) -> usize {
    ((vstd::wrapping::u64_specs::wrapping_mul(phys, 0x9E37_79B9_7F4A_7C15u64) >> 32u64) as usize) & mask
}

/// The slot probed at step `i` of the chain that starts at `start`.
pub open spec fn probe_index(start: usize, i: nat, mask: usize) -> usize {
    ((start + i) as usize) & mask
}

/// What a slot holds, as contracts see it.
pub open spec fn slot_model(s: Option<DecodedBlock>) -> Option<BlockModel> {
    match s {
        Some(b) => Some(b@),
        None => None,
    }
}

/// Whether slot `s` is live in generation `g`: it holds a block stamped with `g`.
pub open spec fn live(s: Option<BlockModel>, g: u64) -> bool {
    s matches Some(b) && b.generation == g
}

/// The lookup of `phys` from probe step `i`: a live block for `phys` is a hit, a live block for
/// another key is probed past, and an empty or stale slot ends the chain.
pub open spec fn probe(slots: Seq<Option<BlockModel>>, mask: usize, g: u64, start: usize, phys: u64, i: nat) -> Option<BlockModel>
    decreases MAX_PROBE - i,
{
    if i >= MAX_PROBE {
        None
    } else {
        let s = slots[probe_index(start, i, mask) as int];
        if live(s, g) && s.unwrap().phys_start == phys {
            s
        } else if live(s, g) {
            probe(slots, mask, g, start, phys, i + 1)
        } else {
            None
        }
    }
}

/// Whether an insert of `phys` may take slot `s`: it is empty, stale, or holds `phys` itself.
pub open spec fn free_for(s: Option<BlockModel>, g: u64, phys: u64) -> bool {
    !live(s, g) || s.unwrap().phys_start == phys
}

/// The first probe step from `i` whose slot an insert of `phys` may take; `MAX_PROBE` if none.
pub open spec fn first_free(slots: Seq<Option<BlockModel>>, mask: usize, g: u64, start: usize, phys: u64, i: nat) -> nat
    decreases MAX_PROBE - i,
{
    if i >= MAX_PROBE {
        MAX_PROBE as nat
    } else if free_for(slots[probe_index(start, i, mask) as int], g, phys) {
        i
    } else {
        first_free(slots, mask, g, start, phys, i + 1)
    }
}

/// The slot an insert of `phys` takes: the first free one on its chain, else the chain's head.
pub open spec fn insert_slot(slots: Seq<Option<BlockModel>>, mask: usize, g: u64, phys: u64) -> usize {
    let start = hash_spec(phys, mask);
    let k = first_free(slots, mask, g, start, phys, 0);
    if k < MAX_PROBE { probe_index(start, k, mask) } else { start }
}

/// The slot an insert takes is a slot of the table.
pub proof fn lemma_insert_slot_in_range(slots: Seq<Option<BlockModel>>, mask: usize, g: u64, phys: u64)
    ensures insert_slot(slots, mask, g, phys) <= mask,
{
    let start = hash_spec(phys, mask);
    let x = (vstd::wrapping::u64_specs::wrapping_mul(phys, 0x9E37_79B9_7F4A_7C15u64) >> 32u64) as usize;
    lemma_mask(x, mask);
    let k = first_free(slots, mask, g, start, phys, 0);
    lemma_mask((start + k) as usize, mask);
}

/// How many slots hold a block (of any generation) in page frame `frame`.
pub open spec fn frame_count(slots: Seq<Option<BlockModel>>, frame: u64) -> nat
    decreases slots.len(),
{
    if slots.len() == 0 {
        0
    } else {
        frame_count(slots.drop_last(), frame) + if slots.last() matches Some(b) && b.page_frame == frame { 1nat } else { 0nat }
    }
}

/// The slots with every block of page frame `frame` removed.
pub open spec fn without_frame(slots: Seq<Option<BlockModel>>, frame: u64) -> Seq<Option<BlockModel>> {
    slots.map_values(|s: Option<BlockModel>| if s matches Some(b) && b.page_frame == frame { None } else { s })
}

/// `a + b`, saturating at `u64::MAX`.
pub open spec fn sat_add(a: u64, b: nat) -> u64 {
    if a + b > u64::MAX { u64::MAX } else { (a + b) as u64 }
}

/// `first_free` from step `i` lands in `[i, MAX_PROBE]`; the slot it names is free, and every
/// slot before it on the chain is not.
proof fn lemma_first_free(slots: Seq<Option<BlockModel>>, mask: usize, g: u64, start: usize, phys: u64, i: nat)
    requires i <= MAX_PROBE,
    ensures
        i <= first_free(slots, mask, g, start, phys, i) <= MAX_PROBE,
        first_free(slots, mask, g, start, phys, i) < MAX_PROBE
            ==> free_for(slots[probe_index(start, first_free(slots, mask, g, start, phys, i), mask) as int], g, phys),
        forall|j: nat| i <= j < first_free(slots, mask, g, start, phys, i)
            ==> !free_for(#[trigger] slots[probe_index(start, j, mask) as int], g, phys),
    decreases MAX_PROBE - i,
{
    if i < MAX_PROBE && !free_for(slots[probe_index(start, i, mask) as int], g, phys) {
        lemma_first_free(slots, mask, g, start, phys, i + 1);
    }
}

/// A probe that passes only slots the update left alone, live with other keys, reaches the
/// updated slot `k` and hits there.
proof fn lemma_probe_reaches(
    old_slots: Seq<Option<BlockModel>>, new_slots: Seq<Option<BlockModel>>, mask: usize, g: u64,
    start: usize, phys: u64, b: BlockModel, i: nat, k: nat,
)
    requires
        i <= k < MAX_PROBE,
        b.phys_start == phys, b.generation == g,
        new_slots[probe_index(start, k, mask) as int] == Some(b),
        forall|j: nat| i <= j < k ==> #[trigger] new_slots[probe_index(start, j, mask) as int] == old_slots[probe_index(start, j, mask) as int]
            && !free_for(old_slots[probe_index(start, j, mask) as int], g, phys),
    ensures probe(new_slots, mask, g, start, phys, i) == Some(b),
    decreases k - i,
{
    if i < k {
        assert(new_slots[probe_index(start, i, mask) as int] == old_slots[probe_index(start, i, mask) as int]);
        lemma_probe_reaches(old_slots, new_slots, mask, g, start, phys, b, i + 1, k);
    }
}

/// After an insert of `b` at the slot [`insert_slot`] picks, a lookup of its key finds it.
proof fn lemma_insert_hits(slots: Seq<Option<BlockModel>>, mask: usize, g: u64, b: BlockModel)
    requires
        slots.len() == mask + 1, mask <= usize::MAX / 2, b.generation == g,
    ensures
        probe(slots.update(insert_slot(slots, mask, g, b.phys_start) as int, Some(b)), mask, g,
            hash_spec(b.phys_start, mask), b.phys_start, 0) == Some(b),
{
    let phys = b.phys_start;
    let start = hash_spec(phys, mask);
    let t = insert_slot(slots, mask, g, phys);
    let new_slots = slots.update(t as int, Some(b));
    let k = first_free(slots, mask, g, start, phys, 0);
    lemma_first_free(slots, mask, g, start, phys, 0);
    let x = (vstd::wrapping::u64_specs::wrapping_mul(phys, 0x9E37_79B9_7F4A_7C15u64) >> 32u64) as usize;
    lemma_mask(x, mask);
    if k < MAX_PROBE {
        lemma_mask((start + k) as usize, mask);
        assert forall|j: nat| 0 <= j < k implies #[trigger] new_slots[probe_index(start, j, mask) as int]
            == slots[probe_index(start, j, mask) as int] && !free_for(slots[probe_index(start, j, mask) as int], g, phys) by {
            lemma_mask((start + j) as usize, mask);
            assert(!free_for(slots[probe_index(start, j, mask) as int], g, phys));
            assert(probe_index(start, j, mask) != t);
        }
        lemma_probe_reaches(slots, new_slots, mask, g, start, phys, b, 0, k);
    } else {
        assert(probe_index(start, 0, mask) == start);
    }
}

/// A probe over slots that only lost blocks (each slot unchanged or emptied) finds nothing the
/// original slots did not.
proof fn lemma_probe_shrinks(
    old_slots: Seq<Option<BlockModel>>, new_slots: Seq<Option<BlockModel>>, mask: usize, g: u64,
    start: usize, phys: u64, i: nat,
)
    requires
        old_slots.len() == new_slots.len(), old_slots.len() == mask + 1, start <= mask, mask <= usize::MAX / 2,
        forall|j: int| 0 <= j < new_slots.len() ==> #[trigger] new_slots[j] == old_slots[j] || new_slots[j] is None,
    ensures
        probe(new_slots, mask, g, start, phys, i) is Some
            ==> probe(new_slots, mask, g, start, phys, i) == probe(old_slots, mask, g, start, phys, i),
    decreases MAX_PROBE - i,
{
    if i < MAX_PROBE {
        lemma_mask((start + i) as usize, mask);
        let idx = probe_index(start, i, mask) as int;
        assert(new_slots[idx] == old_slots[idx] || new_slots[idx] is None);
        lemma_probe_shrinks(old_slots, new_slots, mask, g, start, phys, i + 1);
    }
}

/// A probe only finds a live block stored under the key it looks for.
pub proof fn lemma_probe_live(slots: Seq<Option<BlockModel>>, mask: usize, g: u64, start: usize, phys: u64, i: nat)
    requires slots.len() == mask + 1, start <= mask, mask <= usize::MAX / 2,
    ensures
        probe(slots, mask, g, start, phys, i) matches Some(b) ==> b.phys_start == phys && b.generation == g
            && exists|j: int| 0 <= j < slots.len() && slots[j] == Some(b),
    decreases MAX_PROBE - i,
{
    if i < MAX_PROBE {
        lemma_mask((start + i) as usize, mask);
        lemma_probe_live(slots, mask, g, start, phys, i + 1);
    }
}

/// Open-addressed, physically keyed block cache with an O(1) whole-cache flush.
pub struct BlockCache {
    slots: Vec<Option<DecodedBlock>>,
    mask: usize,
    generation: u64,
    /// Every page frame that holds at least one block inserted in the current generation. A
    /// store into a frame outside this set cannot have hit cached code, so it needs no scan.
    has_code: BTreeSet<u64>,
    flushes: u64,
    blocks_discarded: u64,
    fence_i_noops: u64,
}

impl BlockCache {
    /// The slots, as contracts see them.
    pub closed spec fn slots(&self) -> Seq<Option<BlockModel>> {
        self.slots@.map_values(|s: Option<DecodedBlock>| slot_model(s))
    }

    /// The probe mask: the slot count minus one.
    pub closed spec fn mask(&self) -> usize {
        self.mask
    }

    /// The current cache generation.
    pub closed spec fn generation(&self) -> u64 {
        self.generation
    }

    /// The page frames recorded as holding code.
    pub closed spec fn code_frames(&self) -> Set<u64> {
        self.has_code@
    }

    /// Whole-cache flushes performed.
    pub closed spec fn flush_count(&self) -> u64 {
        self.flushes
    }

    /// Blocks dropped by page-granular invalidation.
    pub closed spec fn discarded_count(&self) -> u64 {
        self.blocks_discarded
    }

    /// `fence.i` events that needed no flush.
    pub closed spec fn fence_i_count(&self) -> u64 {
        self.fence_i_noops
    }

    /// The table shape: one slot per value of the mask, and a mask small enough that a probe
    /// step never overflows.
    pub open spec fn wf(&self) -> bool {
        &&& self.slots().len() == self.mask() + 1
        &&& self.mask() <= usize::MAX / 2
    }

    #[verifier::type_invariant]
    closed spec fn shape(&self) -> bool {
        &&& self.slots@.len() == self.mask + 1
        &&& self.mask <= usize::MAX / 2
    }

    /// The bookkeeping a page flush relies on: no block is stamped with a later generation than
    /// the current one, and every live block's frame is recorded as holding code.
    pub open spec fn coherent(&self) -> bool {
        &&& forall|i: int| 0 <= i < self.slots().len() && self.slots()[i] is Some
            ==> #[trigger] self.slots()[i].unwrap().generation <= self.generation()
        &&& forall|i: int| 0 <= i < self.slots().len() && live(#[trigger] self.slots()[i], self.generation())
            ==> self.code_frames().contains(self.slots()[i].unwrap().page_frame)
    }

    /// The block a lookup of `phys` finds, if any.
    pub open spec fn lookup(&self, phys: u64) -> Option<BlockModel> {
        probe(self.slots(), self.mask(), self.generation(), hash_spec(phys, self.mask()), phys, 0)
    }

    /// A lookup only finds a live block stored under its own key.
    pub proof fn lemma_lookup_live(&self, phys: u64)
        requires self.wf(),
        ensures
            self.lookup(phys) matches Some(b) ==> b.phys_start == phys && b.generation == self.generation()
                && exists|j: int| 0 <= j < self.slots().len() && self.slots()[j] == Some(b),
    {
        let x = (vstd::wrapping::u64_specs::wrapping_mul(phys, 0x9E37_79B9_7F4A_7C15u64) >> 32u64) as usize;
        lemma_mask(x, self.mask());
        lemma_probe_live(self.slots(), self.mask(), self.generation(), hash_spec(phys, self.mask()), phys, 0);
    }

    fn hash(&self, phys: u64) -> (r: usize)
        ensures r == hash_spec(phys, self.mask()), r <= self.mask(),
    {
        let h = phys.wrapping_mul(0x9E37_79B9_7F4A_7C15u64);
        let mask = self.mask;
        let x = (h >> 32u64) as usize;
        proof { lemma_mask(x, mask); }
        x & mask
    }

    /// Look up a live block whose entry is `phys_start`; `None` on a miss, including a stale
    /// slot, so the caller rebuilds.
    pub fn get(&self, phys_start: u64) -> (r: Option<&DecodedBlock>)
        ensures
            self.wf(),
            match r {
                Some(b) => self.lookup(phys_start) == Some(b@),
                None => self.lookup(phys_start) is None,
            },
    {
        proof { use_type_invariant(self); }
        let start = self.hash(phys_start);
        let mut i: usize = 0;
        while i < MAX_PROBE
            invariant
                self.wf(), i <= MAX_PROBE, start == hash_spec(phys_start, self.mask()), start <= self.mask(),
                self.lookup(phys_start) == probe(self.slots(), self.mask(), self.generation(), start, phys_start, i as nat),
            decreases MAX_PROBE - i,
        {
            let mask = self.mask;
            let sum = start + i;
            let idx = sum & mask;
            proof { lemma_mask(sum, mask); }
            assert(idx == probe_index(start, i as nat, mask));
            match &self.slots[idx] {
                Some(b) => {
                    proof { lemma_block_view(b); }
                    if b.block_gen == self.generation && b.phys_start == phys_start {
                        return Some(b);
                    }
                    if b.block_gen != self.generation {
                        return None;
                    }
                }
                None => {
                    return None;
                }
            }
            i = i + 1;
        }
        None
    }

    /// The block as stored by an insert in generation `g`.
    pub open spec fn stamped(b: BlockModel, g: u64) -> BlockModel {
        BlockModel { generation: g, ..b }
    }

    /// Insert `block`, stamped with the current generation, into the first free slot of its
    /// probe chain (empty, stale, or holding the same key), or the chain's head when every slot
    /// holds another live block. Its page frame is recorded as holding code.
    pub fn insert(&mut self, block: DecodedBlock)
        ensures
            final(self).slots() == old(self).slots().update(
                insert_slot(old(self).slots(), old(self).mask(), old(self).generation(), block@.phys_start) as int,
                Some(Self::stamped(block@, old(self).generation()))),
            final(self).lookup(block@.phys_start) == Some(Self::stamped(block@, old(self).generation())),
            final(self).wf(),
            final(self).code_frames() == old(self).code_frames().insert(block@.page_frame),
            final(self).mask() == old(self).mask(), final(self).generation() == old(self).generation(),
            final(self).flush_count() == old(self).flush_count(),
            final(self).discarded_count() == old(self).discarded_count(),
            final(self).fence_i_count() == old(self).fence_i_count(),
            old(self).coherent() ==> final(self).coherent(),
    {
        proof { use_type_invariant(&*self); }
        let ghost old_slots = self.slots();
        let ghost g = self.generation;
        let ghost mask = self.mask;
        let ghost b = Self::stamped(block@, g);
        let ghost input = block@;
        let mut blk = block;
        blk.block_gen = self.generation;
        proof { lemma_block_view(&blk); }
        assert(blk@ == b);
        let mut frames = BTreeSet::new();
        std::mem::swap(&mut frames, &mut self.has_code);
        frames.insert(blk.page_frame);
        self.has_code = frames;
        let start = self.hash(blk.phys_start);
        proof {
            lemma_first_free(old_slots, mask, g, start, b.phys_start, 0);
            lemma_insert_hits(old_slots, mask, g, b);
        }
        let mut i: usize = 0;
        while i < MAX_PROBE
            invariant
                self.wf(), self.slots() == old_slots, self.mask == mask, self.generation == g,
                old_slots == old(self).slots(), mask == old(self).mask(), g == old(self).generation(),
                blk@ == b, b == Self::stamped(input, g), input == block@, i <= MAX_PROBE, start == hash_spec(b.phys_start, mask), start <= mask,
                self.has_code@ == old(self).has_code@.insert(b.page_frame),
                self.flushes == old(self).flushes, self.blocks_discarded == old(self).blocks_discarded,
                self.fence_i_noops == old(self).fence_i_noops,
                first_free(old_slots, mask, g, start, b.phys_start, 0) == first_free(old_slots, mask, g, start, b.phys_start, i as nat),
            decreases MAX_PROBE - i,
        {
            let sum = start + i;
            let idx = sum & self.mask;
            proof { lemma_mask(sum, mask); }
            assert(idx == probe_index(start, i as nat, mask));
            let free = match &self.slots[idx] {
                None => true,
                Some(s) => {
                    proof { lemma_block_view(s); }
                    s.block_gen != self.generation || s.phys_start == blk.phys_start
                }
            };
            assert(free == free_for(old_slots[idx as int], g, b.phys_start));
            if free {
                assert(first_free(old_slots, mask, g, start, b.phys_start, i as nat) == i as nat);
                self.slots[idx] = Some(blk);
                proof {
                    assert(self.slots() =~= old_slots.update(idx as int, Some(b)));
                    assert(b.generation == g);
                    assert(g == old(self).generation());
                    assert(self.generation() == g);
                    assert(idx as int == insert_slot(old_slots, mask, g, b.phys_start) as int);
                    lemma_insert_hits(old_slots, mask, g, b);
                    self.lemma_coherent_after_insert(old(self), b, idx as int);
                }
                return;
            }
            i = i + 1;
        }
        proof { lemma_mask(start, mask); }
        assert(insert_slot(old_slots, mask, g, b.phys_start) == start);
        self.slots[start] = Some(blk);
        proof {
            assert(self.slots() =~= old_slots.update(start as int, Some(b)));
            lemma_insert_hits(old_slots, mask, g, b);
            self.lemma_coherent_after_insert(old(self), b, start as int);
        }
    }

    proof fn lemma_coherent_after_insert(&self, before: &Self, b: BlockModel, idx: int)
        requires
            0 <= idx < before.slots().len(),
            self.slots() == before.slots().update(idx, Some(b)),
            b.generation == before.generation(), self.generation() == before.generation(),
            self.code_frames() == before.code_frames().insert(b.page_frame),
        ensures before.coherent() ==> self.coherent(),
    {
        if before.coherent() {
            assert forall|i: int| 0 <= i < self.slots().len() && live(#[trigger] self.slots()[i], self.generation())
                implies self.code_frames().contains(self.slots()[i].unwrap().page_frame) by {
                if i != idx {
                    assert(self.slots()[i] == before.slots()[i]);
                }
            }
            assert forall|i: int| 0 <= i < self.slots().len() && self.slots()[i] is Some
                implies #[trigger] self.slots()[i].unwrap().generation <= self.generation() by {
                if i != idx {
                    assert(self.slots()[i] == before.slots()[i]);
                }
            }
        }
    }

    /// Invalidate the entire cache in O(1): bump the generation, so every stored block becomes
    /// invisible, and forget every code frame.
    pub fn flush(&mut self)
        ensures
            final(self).generation() == vstd::wrapping::u64_specs::wrapping_add(old(self).generation(), 1),
            final(self).code_frames() == Set::<u64>::empty(),
            final(self).wf(),
            final(self).flush_count() == sat_add(old(self).flush_count(), 1),
            final(self).slots() == old(self).slots(), final(self).mask() == old(self).mask(),
            final(self).discarded_count() == old(self).discarded_count(),
            final(self).fence_i_count() == old(self).fence_i_count(),
            old(self).coherent() && old(self).generation() < u64::MAX ==> final(self).coherent(),
            old(self).coherent() && old(self).generation() < u64::MAX
                ==> forall|phys: u64| #[trigger] final(self).lookup(phys) is None,
    {
        proof { use_type_invariant(&*self); }
        self.generation = self.generation.wrapping_add(1);
        self.has_code = BTreeSet::new();
        self.flushes = self.flushes.saturating_add(1);
        proof {
            if old(self).coherent() && old(self).generation() < u64::MAX {
                assert forall|phys: u64| #[trigger] self.lookup(phys) is None by {
                    let start = hash_spec(phys, self.mask);
                    let x = (vstd::wrapping::u64_specs::wrapping_mul(phys, 0x9E37_79B9_7F4A_7C15u64) >> 32u64) as usize;
                    lemma_mask(x, self.mask);
                    lemma_mask((start + 0) as usize, self.mask);
                    let idx = probe_index(start, 0, self.mask) as int;
                    assert(0 <= idx < self.slots().len());
                    assert(!live(self.slots()[idx], self.generation));
                }
            }
        }
    }

    /// Page-granular invalidation: drop every block (of any generation) whose page frame is
    /// `frame`. Returns whether `frame` was recorded as holding code; a frame that was not is
    /// left alone without a scan.
    pub fn flush_page(&mut self, frame: u64) -> (r: bool)
        ensures
            r == old(self).code_frames().contains(frame),
            final(self).code_frames() == old(self).code_frames().remove(frame),
            final(self).wf(),
            r ==> final(self).slots() == without_frame(old(self).slots(), frame),
            r ==> final(self).discarded_count() == sat_add(old(self).discarded_count(), frame_count(old(self).slots(), frame)),
            !r ==> final(self).slots() == old(self).slots() && final(self).discarded_count() == old(self).discarded_count(),
            final(self).mask() == old(self).mask(), final(self).generation() == old(self).generation(),
            final(self).flush_count() == old(self).flush_count(),
            final(self).fence_i_count() == old(self).fence_i_count(),
            forall|phys: u64| #[trigger] final(self).lookup(phys) is Some ==> final(self).lookup(phys) == old(self).lookup(phys),
            old(self).coherent() ==> final(self).coherent(),
            old(self).coherent() ==> forall|i: int| 0 <= i < final(self).slots().len() && live(#[trigger] final(self).slots()[i], final(self).generation())
                ==> final(self).slots()[i].unwrap().page_frame != frame,
    {
        proof { use_type_invariant(&*self); }
        let ghost old_slots = self.slots();
        let mut frames = BTreeSet::new();
        std::mem::swap(&mut frames, &mut self.has_code);
        let was_code = frames.remove(&frame);
        self.has_code = frames;
        if !was_code {
            proof {
                if old(self).coherent() {
                    assert forall|i: int| 0 <= i < self.slots().len() && live(#[trigger] self.slots()[i], self.generation())
                        implies self.slots()[i].unwrap().page_frame != frame by {
                        assert(old(self).code_frames().contains(old(self).slots()[i].unwrap().page_frame));
                    }
                }
            }
            return false;
        }
        let mut j: usize = 0;
        while j < self.slots.len()
            invariant
                self.wf(), self.mask == old(self).mask, self.generation == old(self).generation,
                self.slots().len() == old_slots.len(), old_slots == old(self).slots(),
                j <= old_slots.len(),
                forall|k: int| 0 <= k < j ==> #[trigger] self.slots()[k] == without_frame(old_slots, frame)[k],
                forall|k: int| j <= k < old_slots.len() ==> #[trigger] self.slots()[k] == old_slots[k],
                self.blocks_discarded == sat_add(old(self).blocks_discarded, frame_count(old_slots.subrange(0, j as int), frame)),
                self.has_code@ == old(self).has_code@.remove(frame),
                self.flushes == old(self).flushes, self.fence_i_noops == old(self).fence_i_noops,
            decreases old_slots.len() - j,
        {
            let hit = match &self.slots[j] {
                Some(b) => {
                    proof { lemma_block_view(b); }
                    b.page_frame == frame
                }
                None => false,
            };
            let ghost before = self.slots();
            assert(self.slots()[j as int] == old_slots[j as int]);
            assert(old_slots.subrange(0, j + 1).drop_last() =~= old_slots.subrange(0, j as int));
            assert(old_slots.subrange(0, j + 1).last() == old_slots[j as int]);
            assert(hit == (old_slots[j as int] matches Some(b) && b.page_frame == frame));
            if hit {
                self.slots[j] = None;
                self.blocks_discarded = self.blocks_discarded.saturating_add(1);
                assert(self.slots() =~= before.update(j as int, None));
            } else {
                assert(self.slots() =~= before);
            }
            j = j + 1;
        }
        proof {
            assert(old_slots.subrange(0, old_slots.len() as int) =~= old_slots);
            assert(self.slots() =~= without_frame(old_slots, frame));
            assert forall|phys: u64| #[trigger] self.lookup(phys) is Some implies self.lookup(phys) == old(self).lookup(phys) by {
                let x = (vstd::wrapping::u64_specs::wrapping_mul(phys, 0x9E37_79B9_7F4A_7C15u64) >> 32u64) as usize;
                lemma_mask(x, self.mask);
                lemma_probe_shrinks(old_slots, self.slots(), self.mask, self.generation, hash_spec(phys, self.mask), phys, 0);
            }
            if old(self).coherent() {
                assert forall|i: int| 0 <= i < self.slots().len() && live(#[trigger] self.slots()[i], self.generation())
                    implies self.code_frames().contains(self.slots()[i].unwrap().page_frame) by {
                    assert(self.slots()[i] == old_slots[i]);
                }
                assert forall|i: int| 0 <= i < self.slots().len() && self.slots()[i] is Some
                    implies #[trigger] self.slots()[i].unwrap().generation <= self.generation() by {
                    assert(self.slots()[i] == old_slots[i]);
                }
            }
        }
        true
    }

    /// Actual slot count.
    pub fn capacity(&self) -> (r: usize)
        ensures r == self.slots().len(),
    {
        self.slots.len()
    }

    /// A cache with `capacity` slots rounded up to a power of two (at least 1), every slot
    /// empty, at generation 1.
    pub fn with_capacity(capacity: usize) -> (c: Self)
        requires capacity <= usize::MAX / 2 + 1,
        ensures
            c.wf(), c.coherent(),
            rounded_capacity(capacity, c.slots().len()),
            forall|i: int| 0 <= i < c.slots().len() ==> c.slots()[i] is None,
            c.generation() == 1, c.code_frames() == Set::<u64>::empty(),
            c.flush_count() == 0, c.discarded_count() == 0, c.fence_i_count() == 0,
    {
        let n: usize = if capacity == 0 { 1 } else { capacity };
        let mut cap: usize = 1;
        let ghost mut e: nat = 0;
        let ghost k = lemma_half_space();
        while cap < n
            invariant
                1 <= n <= usize::MAX / 2 + 1,
                power_of_two(k) == usize::MAX / 2 + 1,
                cap >= 1, cap == power_of_two(e), cap <= usize::MAX / 2 + 1,
                cap == 1 || cap / 2 < n,
            decreases usize::MAX - cap,
        {
            proof {
                if k <= e {
                    lemma_power_of_two_monotone(k, e);
                }
                lemma_power_of_two_monotone(e + 1, k);
            }
            cap = cap * 2;
            proof { e = e + 1; }
        }
        let mut slots: Vec<Option<DecodedBlock>> = Vec::new();
        while slots.len() < cap
            invariant
                slots@.len() <= cap,
                forall|i: int| 0 <= i < slots@.len() ==> slots@[i] is None,
            decreases cap - slots@.len(),
        {
            slots.push(None);
        }
        let c = BlockCache {
            slots,
            mask: cap - 1,
            generation: 1,
            has_code: BTreeSet::new(),
            flushes: 0,
            blocks_discarded: 0,
            fence_i_noops: 0,
        };
        assert(c.slots().len() == cap);
        c
    }

    /// Record a `fence.i` that needed no flush: the page bookkeeping already made the fetch
    /// stream coherent at store time.
    pub fn note_fence_i(&mut self)
        ensures
            final(self).fence_i_count() == sat_add(old(self).fence_i_count(), 1),
            final(self).slots() == old(self).slots(), final(self).mask() == old(self).mask(),
            final(self).generation() == old(self).generation(),
            final(self).code_frames() == old(self).code_frames(),
            final(self).flush_count() == old(self).flush_count(),
            final(self).discarded_count() == old(self).discarded_count(),
    {
        proof { use_type_invariant(&*self); }
        self.fence_i_noops = self.fence_i_noops.saturating_add(1);
    }

    /// The number of `fence.i` events that needed no flush.
    pub fn fence_i_noops(&self) -> (r: u64)
        ensures r == self.fence_i_count(),
    {
        self.fence_i_noops
    }

    /// `(whole-cache flushes, blocks discarded by page flushes)`.
    pub fn invalidation_stats(&self) -> (r: (u64, u64))
        ensures r == (self.flush_count(), self.discarded_count()),
    {
        (self.flushes, self.blocks_discarded)
    }
}

} // verus!
