//! A bounded hot-PC histogram.
//!
//! Answers "where is the guest spending its instructions?" in fixed memory, however large the
//! guest is: a direct-mapped tag table over 64-byte PC regions. Each of [`SIZE`] slots holds the
//! region it currently owns and a count. Aliasing (two hot regions hashing to one slot) is made
//! visible through a `collisions` counter and a small-incumbent eviction policy, never silently
//! merged into the wrong region.

use vstd::prelude::*;
use vstd::relations::{sorted_by, total_ordering};

verus! {

/// A physical PC is bucketed into a 64-byte region: `region = pc >> REGION_SHIFT`.
pub const REGION_SHIFT: u32 = 6;

/// Number of direct-mapped slots (a power of two).
pub const SIZE: usize = 8192;

/// `log2(SIZE)`: the number of top hash bits used as the slot index.
pub const LOG2_SIZE: u64 = 13;

/// Fibonacci-hashing multiplier (2^64 / golden ratio).
pub const GOLDEN64: u64 = 0x9E3779B97F4A7C15;

/// Incumbent count at or below which a colliding newcomer evicts the incumbent.
pub const EVICT_THRESHOLD: u32 = 2;

/// One direct-mapped bucket. `count == 0` marks the slot empty.
#[derive(Clone, Copy)]
struct Slot {
    tag: u64,
    count: u32,
}

/// The slot a region hashes to: the top `LOG2_SIZE` bits of its Fibonacci hash.
pub open spec fn slot_index(region: u64) -> int {
    (region.wrapping_mul(GOLDEN64) >> (64 - LOG2_SIZE) as u64) as int
}

/// Whether recording `region` into the slot `s` is refused as a collision: the slot is owned by
/// a different region whose count is above the eviction threshold.
pub open spec fn is_collision(s: (u64, u32), region: u64) -> bool {
    s.1 != 0 && s.0 != region && s.1 > EVICT_THRESHOLD
}

/// The slot `s` after recording `region` in it: claim an empty slot, count a match (saturating),
/// evict a weak incumbent, or leave a hot incumbent alone.
pub open spec fn recorded_slot(s: (u64, u32), region: u64) -> (u64, u32) {
    if s.1 == 0 {
        (region, 1)
    } else if s.0 == region {
        (s.0, if s.1 == u32::MAX { u32::MAX } else { (s.1 + 1) as u32 })
    } else if s.1 <= EVICT_THRESHOLD {
        (region, 1)
    } else {
        s
    }
}

/// The occupied slots, in slot order, as `(region base pc, count)`.
pub open spec fn live_regions(slots: Seq<(u64, u32)>) -> Seq<(u64, u32)>
    decreases slots.len(),
{
    if slots.len() == 0 {
        Seq::empty()
    } else {
        let prev = live_regions(slots.drop_last());
        let s = slots.last();
        if s.1 > 0 { prev.push((s.0 << REGION_SHIFT, s.1)) } else { prev }
    }
}

/// The report order: higher count first, then lower pc.
pub open spec fn hot_order() -> spec_fn((u64, u32), (u64, u32)) -> bool {
    |a: (u64, u32), b: (u64, u32)| a.1 > b.1 || (a.1 == b.1 && a.0 <= b.0)
}

/// The report order is a total order on `(pc, count)` pairs.
pub proof fn lemma_hot_order_total()
    ensures total_ordering(hot_order()),
{
}

/// The fixed-size hot-PC histogram.
pub struct HotHistogram {
    slots: Vec<Slot>,
    samples: u64,
    collisions: u64,
}

impl HotHistogram {
    /// The slots as `(region, count)` pairs.
    pub closed spec fn spec_slots(&self) -> Seq<(u64, u32)> {
        self.slots@.map_values(|s: Slot| (s.tag, s.count))
    }

    /// Total samples recorded.
    pub closed spec fn spec_samples(&self) -> u64 {
        self.samples
    }

    /// Records refused to a hot incumbent.
    pub closed spec fn spec_collisions(&self) -> u64 {
        self.collisions
    }

    /// The table has its fixed size.
    pub closed spec fn wf(&self) -> bool {
        self.slots@.len() == SIZE
    }

    /// A fresh, empty histogram with all [`SIZE`] slots allocated.
    pub fn new() -> (r: Self)
        ensures
            r.wf(), r.spec_samples() == 0, r.spec_collisions() == 0,
            r.spec_slots() == Seq::new(SIZE as nat, |i: int| (0u64, 0u32)),
    {
        let mut slots: Vec<Slot> = Vec::new();
        let mut k: usize = 0;
        while k < SIZE
            invariant k <= SIZE, slots@.len() == k, forall|i: int| 0 <= i < k ==> slots@[i].count == 0 && slots@[i].tag == 0,
            decreases SIZE - k,
        {
            slots.push(Slot { tag: 0, count: 0 });
            k += 1;
        }
        let r = HotHistogram { slots, samples: 0, collisions: 0 };
        assert(r.spec_slots() =~= Seq::new(SIZE as nat, |i: int| (0u64, 0u32)));
        r
    }

    fn index_of(region: u64) -> (r: usize)
        ensures r == slot_index(region), r < SIZE,
    {
        let h = region.wrapping_mul(GOLDEN64);
        proof {
            vstd::bits::lemma_u64_shr_is_div(h, 51);
            vstd::arithmetic::power2::lemma2_to64_rest();
            assert(h as nat / 0x8_0000_0000_0000nat < 8192);
        }
        (h >> 51u64) as usize
    }

    /// Record one sample at physical PC `phys_pc`, bucketed to its 64-byte region: claim an empty
    /// slot, count a match (saturating), evict a weak incumbent (count at most 2), or leave a hot
    /// incumbent alone and count a collision.
    pub fn record(&mut self, phys_pc: u64)
        requires
            old(self).wf(),
            old(self).spec_samples() < u64::MAX,
            is_collision(old(self).spec_slots()[slot_index(phys_pc >> REGION_SHIFT)], phys_pc >> REGION_SHIFT)
                ==> old(self).spec_collisions() < u64::MAX,
        ensures
            final(self).wf(),
            final(self).spec_samples() == old(self).spec_samples() + 1,
            final(self).spec_slots() == old(self).spec_slots().update(
                slot_index(phys_pc >> REGION_SHIFT),
                recorded_slot(old(self).spec_slots()[slot_index(phys_pc >> REGION_SHIFT)], phys_pc >> REGION_SHIFT),
            ),
            final(self).spec_collisions() == old(self).spec_collisions()
                + if is_collision(old(self).spec_slots()[slot_index(phys_pc >> REGION_SHIFT)], phys_pc >> REGION_SHIFT) { 1int } else { 0int },
    {
        self.samples += 1;
        let region = phys_pc >> REGION_SHIFT;
        let idx = Self::index_of(region);
        let slot = self.slots[idx];
        assert(self.spec_slots()[idx as int] == (slot.tag, slot.count));
        if slot.count == 0 {
            self.slots.set(idx, Slot { tag: region, count: 1 });
        } else if slot.tag == region {
            self.slots.set(idx, Slot { tag: slot.tag, count: slot.count.saturating_add(1) });
        } else if slot.count <= EVICT_THRESHOLD {
            self.slots.set(idx, Slot { tag: region, count: 1 });
        } else {
            self.collisions += 1;
        }
        assert(self.spec_slots() =~= old(self).spec_slots().update(
            idx as int,
            recorded_slot(old(self).spec_slots()[idx as int], region),
        ));
    }

    /// The `k` hottest regions as `(region base pc, count)`, count descending, ties broken by the
    /// lower pc.
    pub fn top(&self, k: usize) -> (r: Vec<(u64, u32)>)
        requires self.wf(),
        ensures ({
            let sorted = live_regions(self.spec_slots()).sort_by(hot_order());
            r@ == sorted.take(if k < sorted.len() { k as int } else { sorted.len() as int })
        }),
    {
        let ghost slots = self.spec_slots();
        let mut live: Vec<(u64, u32)> = Vec::new();
        let mut i: usize = 0;
        while i < self.slots.len()
            invariant
                i <= self.slots@.len(), slots == self.spec_slots(),
                live@ == live_regions(slots.subrange(0, i as int)),
            decreases self.slots.len() - i,
        {
            let s = self.slots[i];
            assert(slots.subrange(0, i + 1).drop_last() =~= slots.subrange(0, i as int));
            assert(slots[i as int] == (s.tag, s.count));
            if s.count > 0 {
                live.push((s.tag << REGION_SHIFT, s.count));
            }
            i += 1;
        }
        assert(slots.subrange(0, slots.len() as int) =~= slots);
        let mut sorted = sort_hot(&live);
        proof {
            lemma_hot_order_total();
            live@.lemma_sort_by_ensures(hot_order());
            vstd::seq_lib::lemma_sorted_unique(sorted@, live@.sort_by(hot_order()), hot_order());
        }
        let n = sorted.len();
        if k < n {
            sorted.truncate(k);
        }
        sorted
    }

    /// Total samples recorded (the percentage denominator).
    pub fn samples(&self) -> (r: u64)
        ensures r == self.spec_samples(),
    {
        self.samples
    }

    /// Count of aliased records refused to a hot incumbent. Non-zero means the table is
    /// under-sized for the working set and the top list may omit a hot region.
    pub fn collisions(&self) -> (r: u64)
        ensures r == self.spec_collisions(),
    {
        self.collisions
    }
}

impl Default for HotHistogram {
    fn default() -> (r: Self)
        ensures
            r.wf(), r.spec_samples() == 0, r.spec_collisions() == 0,
            r.spec_slots() == Seq::new(SIZE as nat, |i: int| (0u64, 0u32)),
    {
        HotHistogram::new()
    }
}

/// Insertion sort of `v` into the report order.
fn sort_hot(v: &Vec<(u64, u32)>) -> (r: Vec<(u64, u32)>)
    ensures sorted_by(r@, hot_order()), r@.to_multiset() == v@.to_multiset(),
{
    broadcast use vstd::seq_lib::group_to_multiset_ensures;
    let mut out: Vec<(u64, u32)> = Vec::new();
    let mut i: usize = 0;
    while i < v.len()
        invariant
            i <= v@.len(),
            sorted_by(out@, hot_order()),
            out@.to_multiset() == v@.subrange(0, i as int).to_multiset(),
        decreases v.len() - i,
    {
        let e = v[i];
        let mut p: usize = 0;
        while p < out.len() && (out[p].1 > e.1 || (out[p].1 == e.1 && out[p].0 <= e.0))
            invariant
                p <= out@.len(), sorted_by(out@, hot_order()),
                forall|j: int| 0 <= j < p ==> (hot_order())(#[trigger] out@[j], e),
            decreases out.len() - p,
        {
            p += 1;
        }
        proof {
            lemma_hot_order_total();
            assert forall|j: int| p <= j < out@.len() implies (hot_order())(e, #[trigger] out@[j]) by {
                assert((hot_order())(e, out@[p as int]));
                if j > p {
                    assert((hot_order())(out@[p as int], out@[j]));
                }
            }
        }
        let ghost before = out@;
        out.insert(p, e);
        proof {
            assert(out@ == before.insert(p as int, e));
            assert forall|a: int, b: int| 0 <= a < b < out@.len() implies (hot_order())(#[trigger] out@[a], #[trigger] out@[b]) by {
                if a < p && b < p {
                } else if a < p && b == p {
                } else if a < p && b > p {
                    assert(out@[b] == before[b - 1]);
                } else if a == p {
                    assert(out@[b] == before[b - 1]);
                } else {
                    assert(out@[a] == before[a - 1]);
                    assert(out@[b] == before[b - 1]);
                }
            }
            assert(v@.subrange(0, i + 1) =~= v@.subrange(0, i as int).push(e));
            vstd::seq_lib::to_multiset_insert(before, p as int, e);
            vstd::seq_lib::to_multiset_build(v@.subrange(0, i as int), e);
        }
        i += 1;
    }
    assert(v@.subrange(0, v@.len() as int) =~= v@);
    out
}

} // verus!
