//! Execution-thread pause accounting for the compile pipeline.
//!
//! Every time the execution thread does compile work that is not interpreting the guest, it
//! records the stall here as one sample. Two signals are kept: time (samples in nanoseconds, with
//! a maximum, a sum and power-of-two buckets), and work (blocks and bytes per step, and per public
//! run call), the deterministic bound that needs no clock.

use vstd::prelude::*;
use vstd::std_specs::bits::u64_leading_zeros;

verus! {

/// Number of power-of-two duration buckets: bucket `b` counts pauses in `[2^b, 2^(b+1))`
/// nanoseconds, the last absorbing everything longer.
pub const PAUSE_BUCKETS: usize = 32;

/// The 5 ms pause target in nanoseconds; longer pauses are counted in `over_target`.
pub const PAUSE_TARGET_NS: u64 = 5_000_000;

/// `a + b`, saturating at `u64::MAX`.
pub open spec fn sat_add(a: u64, b: u64) -> u64 {
    if a + b > u64::MAX { u64::MAX } else { (a + b) as u64 }
}

/// The larger of `a` and `b`.
pub open spec fn max_u64(a: u64, b: u64) -> u64 {
    if a >= b { a } else { b }
}

/// The bucket of a pause of `ns` nanoseconds: `floor(log2(ns))`, 0 for 0, clamped to the last.
pub open spec fn bucket_spec(ns: u64) -> int {
    if ns == 0 {
        0
    } else {
        let b = 63 - u64_leading_zeros(ns);
        if b < PAUSE_BUCKETS as int - 1 { b } else { PAUSE_BUCKETS as int - 1 }
    }
}

/// The power-of-two bucket index for `ns`: `floor(log2(ns))`, clamped to the last bucket;
/// `ns == 0` lands in bucket 0.
pub fn bucket_of(ns: u64) -> (r: usize)
    ensures r == bucket_spec(ns), r < PAUSE_BUCKETS,
{
    if ns == 0 {
        return 0;
    }
    proof {
        vstd::std_specs::bits::axiom_u64_leading_zeros(ns);
    }
    let z = ns.leading_zeros();
    let b = (63 - z) as usize;
    if b < PAUSE_BUCKETS - 1 { b } else { PAUSE_BUCKETS - 1 }
}

/// A fixed-memory summary of compile-attributable execution-thread stalls.
#[derive(Clone, Copy, Debug, PartialEq, Eq)]
pub struct JitPauseStats {
    /// Total pause samples recorded.
    pub count: u64,
    /// Largest single pause seen, in nanoseconds.
    pub max_ns: u64,
    /// Sum of all pause nanoseconds.
    pub sum_ns: u64,
    /// Pauses longer than [`PAUSE_TARGET_NS`].
    pub over_target: u64,
    /// Power-of-two duration histogram.
    pub buckets: [u64; 32],
    /// Largest number of queued translation requests examined in one pump.
    pub max_attempted_blocks: u64,
    /// Cumulative queued translation requests examined.
    pub total_attempted_blocks: u64,
    /// Largest number of validated blocks submitted in one step.
    pub max_submitted_blocks: u64,
    /// Largest source-code byte count submitted in one step.
    pub max_submitted_bytes: u64,
    /// Cumulative validated blocks submitted.
    pub total_submitted_blocks: u64,
    /// Number of public run calls summarized.
    pub run_count: u64,
    /// Translation attempts of the most recent run call.
    pub last_run_attempted_blocks: u64,
    /// Largest translation-attempt count of one run call.
    pub max_run_attempted_blocks: u64,
    /// Blocks submitted by the most recent run call.
    pub last_run_submitted_blocks: u64,
    /// Largest submission count of one run call.
    pub max_run_submitted_blocks: u64,
    /// Discovery nominations staged by the most recent run call.
    pub last_run_staged_nominations: u64,
    /// Largest nomination-staging count of one run call.
    pub max_run_staged_nominations: u64,
    /// Final-pump count of the most recent run call.
    pub last_final_pumps: u64,
    /// Largest final-pump count of one run call.
    pub max_final_pumps: u64,
    /// Translation attempts of the most recent run's final pump.
    pub last_final_attempted_blocks: u64,
    /// Largest attempt count of a final pump.
    pub max_final_attempted_blocks: u64,
    /// Blocks submitted by the most recent run's final pump.
    pub last_final_submitted_blocks: u64,
    /// Largest block count submitted by a final pump.
    pub max_final_submitted_blocks: u64,
}

/// The sum of the first `n` bucket counts, saturating at `u64::MAX`.
pub open spec fn bucket_prefix(bs: Seq<u64>, n: int) -> u64
    decreases n,
{
    if n <= 0 { 0 } else { sat_add(bucket_prefix(bs, n - 1), bs[n - 1]) }
}

/// The upper edge of pause bucket `b`: `2^(b + 1)` nanoseconds.
pub open spec fn bucket_edge(b: nat) -> nat
    decreases b,
{
    if b == 0 { 2 } else { 2 * bucket_edge((b - 1) as nat) }
}

/// The upper edge of the first bucket from `b` on whose running count reaches `target`, or
/// `max_ns` when none does.
pub open spec fn edge_reaching(bs: Seq<u64>, target: u64, b: int, max_ns: u64) -> u64
    decreases bs.len() - b,
{
    if b < 0 || b >= bs.len() {
        max_ns
    } else if bucket_prefix(bs, b + 1) >= target {
        bucket_edge(b as nat) as u64
    } else {
        edge_reaching(bs, target, b + 1, max_ns)
    }
}

proof fn lemma_bucket_edge_pow2(b: nat)
    ensures bucket_edge(b) == vstd::arithmetic::power2::pow2(b + 1),
    decreases b,
{
    vstd::arithmetic::power2::lemma_pow2_unfold(b + 1);
    if b == 0 {
        vstd::arithmetic::power2::lemma2_to64();
    } else {
        lemma_bucket_edge_pow2((b - 1) as nat);
    }
}

proof fn lemma_bucket_edge_small(b: nat)
    requires b < 31,
    ensures bucket_edge(b) <= 0x8000_0000,
{
    lemma_bucket_edge_pow2(b);
    vstd::arithmetic::power2::lemma2_to64();
    if b + 1 < 31 {
        vstd::arithmetic::power2::lemma_pow2_strictly_increases(b + 1, 31);
    }
}

impl JitPauseStats {
    /// The pause at the `target`-th smallest sample, as the upper edge of the first bucket whose
    /// running count reaches `target` ([`edge_reaching`]); the largest pause when no bucket does.
    pub fn percentile_for_count(&self, target: u64) -> (r: u64)
        ensures r == edge_reaching(self.buckets@, target, 0, self.max_ns),
    {
        let mut acc: u64 = 0;
        let mut edge: u64 = 2;
        let mut b: usize = 0;
        while b < 32
            invariant
                b <= 32, self.buckets@.len() == 32,
                acc == bucket_prefix(self.buckets@, b as int),
                b < 32 ==> edge == bucket_edge(b as nat),
                edge_reaching(self.buckets@, target, 0, self.max_ns) == edge_reaching(self.buckets@, target, b as int, self.max_ns),
            decreases 32 - b,
        {
            acc = acc.saturating_add(self.buckets[b]);
            if acc >= target {
                return edge;
            }
            if b < 31 {
                proof { lemma_bucket_edge_small(b as nat); }
                edge = edge * 2;
            }
            b += 1;
        }
        self.max_ns
    }
}

impl JitPauseStats {
    /// A fresh, zeroed summary.
    pub fn new() -> (r: Self)
        ensures
            r.count == 0, r.max_ns == 0, r.sum_ns == 0, r.over_target == 0,
            forall|b: int| 0 <= b < PAUSE_BUCKETS ==> r.buckets@[b] == 0,
            r.max_attempted_blocks == 0, r.total_attempted_blocks == 0, r.max_submitted_blocks == 0,
            r.max_submitted_bytes == 0, r.total_submitted_blocks == 0, r.run_count == 0,
            r.last_run_attempted_blocks == 0, r.max_run_attempted_blocks == 0,
            r.last_run_submitted_blocks == 0, r.max_run_submitted_blocks == 0,
            r.last_run_staged_nominations == 0, r.max_run_staged_nominations == 0,
            r.last_final_pumps == 0, r.max_final_pumps == 0, r.last_final_attempted_blocks == 0,
            r.max_final_attempted_blocks == 0, r.last_final_submitted_blocks == 0,
            r.max_final_submitted_blocks == 0,
    {
        JitPauseStats {
            count: 0,
            max_ns: 0,
            sum_ns: 0,
            over_target: 0,
            buckets: [0u64; 32],
            max_attempted_blocks: 0,
            total_attempted_blocks: 0,
            max_submitted_blocks: 0,
            max_submitted_bytes: 0,
            total_submitted_blocks: 0,
            run_count: 0,
            last_run_attempted_blocks: 0,
            max_run_attempted_blocks: 0,
            last_run_submitted_blocks: 0,
            max_run_submitted_blocks: 0,
            last_run_staged_nominations: 0,
            max_run_staged_nominations: 0,
            last_final_pumps: 0,
            max_final_pumps: 0,
            last_final_attempted_blocks: 0,
            max_final_attempted_blocks: 0,
            last_final_submitted_blocks: 0,
            max_final_submitted_blocks: 0,
        }
    }

    /// Record one pause of `ns` nanoseconds that examined `attempted` requests and submitted
    /// `submitted` blocks totalling `bytes` source bytes. `ns` may be 0 when no timer is injected.
    pub fn record(&mut self, ns: u64, attempted: u64, submitted: u64, bytes: u64)
        ensures
            final(self).count == sat_add(old(self).count, 1),
            final(self).sum_ns == sat_add(old(self).sum_ns, ns),
            final(self).max_ns == max_u64(old(self).max_ns, ns),
            final(self).over_target == if ns > PAUSE_TARGET_NS { sat_add(old(self).over_target, 1) } else { old(self).over_target },
            final(self).buckets@ == old(self).buckets@.update(bucket_spec(ns), sat_add(old(self).buckets@[bucket_spec(ns)], 1)),
            final(self).max_attempted_blocks == max_u64(old(self).max_attempted_blocks, attempted),
            final(self).total_attempted_blocks == sat_add(old(self).total_attempted_blocks, attempted),
            final(self).max_submitted_blocks == max_u64(old(self).max_submitted_blocks, submitted),
            final(self).max_submitted_bytes == max_u64(old(self).max_submitted_bytes, bytes),
            final(self).total_submitted_blocks == sat_add(old(self).total_submitted_blocks, submitted),
            final(self).run_count == old(self).run_count,
            final(self).last_run_attempted_blocks == old(self).last_run_attempted_blocks,
            final(self).max_run_attempted_blocks == old(self).max_run_attempted_blocks,
            final(self).last_run_submitted_blocks == old(self).last_run_submitted_blocks,
            final(self).max_run_submitted_blocks == old(self).max_run_submitted_blocks,
            final(self).last_run_staged_nominations == old(self).last_run_staged_nominations,
            final(self).max_run_staged_nominations == old(self).max_run_staged_nominations,
            final(self).last_final_pumps == old(self).last_final_pumps,
            final(self).max_final_pumps == old(self).max_final_pumps,
            final(self).last_final_attempted_blocks == old(self).last_final_attempted_blocks,
            final(self).max_final_attempted_blocks == old(self).max_final_attempted_blocks,
            final(self).last_final_submitted_blocks == old(self).last_final_submitted_blocks,
            final(self).max_final_submitted_blocks == old(self).max_final_submitted_blocks,
    {
        self.count = self.count.saturating_add(1);
        self.sum_ns = self.sum_ns.saturating_add(ns);
        if ns > self.max_ns {
            self.max_ns = ns;
        }
        if ns > PAUSE_TARGET_NS {
            self.over_target = self.over_target.saturating_add(1);
        }
        let b = bucket_of(ns);
        self.buckets[b] = self.buckets[b].saturating_add(1);
        if attempted > self.max_attempted_blocks {
            self.max_attempted_blocks = attempted;
        }
        self.total_attempted_blocks = self.total_attempted_blocks.saturating_add(attempted);
        if submitted > self.max_submitted_blocks {
            self.max_submitted_blocks = submitted;
        }
        if bytes > self.max_submitted_bytes {
            self.max_submitted_bytes = bytes;
        }
        self.total_submitted_blocks = self.total_submitted_blocks.saturating_add(submitted);
    }

    /// Record the compile work of one completed public run call: the last-run fields take the
    /// given values and each maximum takes the larger.
    pub fn record_run(
        &mut self,
        attempted: u64,
        submitted: u64,
        staged_nominations: u64,
        final_pumps: u64,
        final_attempted: u64,
        final_submitted: u64,
    )
        ensures
            final(self).run_count == sat_add(old(self).run_count, 1),
            final(self).last_run_attempted_blocks == attempted,
            final(self).max_run_attempted_blocks == max_u64(old(self).max_run_attempted_blocks, attempted),
            final(self).last_run_submitted_blocks == submitted,
            final(self).max_run_submitted_blocks == max_u64(old(self).max_run_submitted_blocks, submitted),
            final(self).last_run_staged_nominations == staged_nominations,
            final(self).max_run_staged_nominations == max_u64(old(self).max_run_staged_nominations, staged_nominations),
            final(self).last_final_pumps == final_pumps,
            final(self).max_final_pumps == max_u64(old(self).max_final_pumps, final_pumps),
            final(self).last_final_attempted_blocks == final_attempted,
            final(self).max_final_attempted_blocks == max_u64(old(self).max_final_attempted_blocks, final_attempted),
            final(self).last_final_submitted_blocks == final_submitted,
            final(self).max_final_submitted_blocks == max_u64(old(self).max_final_submitted_blocks, final_submitted),
            final(self).count == old(self).count,
            final(self).max_ns == old(self).max_ns,
            final(self).sum_ns == old(self).sum_ns,
            final(self).over_target == old(self).over_target,
            final(self).buckets == old(self).buckets,
            final(self).max_attempted_blocks == old(self).max_attempted_blocks,
            final(self).total_attempted_blocks == old(self).total_attempted_blocks,
            final(self).max_submitted_blocks == old(self).max_submitted_blocks,
            final(self).max_submitted_bytes == old(self).max_submitted_bytes,
            final(self).total_submitted_blocks == old(self).total_submitted_blocks,
    {
        self.run_count = self.run_count.saturating_add(1);
        self.last_run_attempted_blocks = attempted;
        if attempted > self.max_run_attempted_blocks {
            self.max_run_attempted_blocks = attempted;
        }
        self.last_run_submitted_blocks = submitted;
        if submitted > self.max_run_submitted_blocks {
            self.max_run_submitted_blocks = submitted;
        }
        self.last_run_staged_nominations = staged_nominations;
        if staged_nominations > self.max_run_staged_nominations {
            self.max_run_staged_nominations = staged_nominations;
        }
        self.last_final_pumps = final_pumps;
        if final_pumps > self.max_final_pumps {
            self.max_final_pumps = final_pumps;
        }
        self.last_final_attempted_blocks = final_attempted;
        if final_attempted > self.max_final_attempted_blocks {
            self.max_final_attempted_blocks = final_attempted;
        }
        self.last_final_submitted_blocks = final_submitted;
        if final_submitted > self.max_final_submitted_blocks {
            self.max_final_submitted_blocks = final_submitted;
        }
    }

    /// Mean pause nanoseconds (0 if no samples).
    pub fn mean_ns(&self) -> (r: u64)
        ensures r == if self.count == 0 { 0 } else { self.sum_ns / self.count },
    {
        if self.count == 0 { 0 } else { self.sum_ns / self.count }
    }
}

impl Default for JitPauseStats {
    fn default() -> (r: Self)
        ensures r.count == 0, r.max_ns == 0, r.sum_ns == 0, r.run_count == 0,
    {
        Self::new()
    }
}

} // verus!
