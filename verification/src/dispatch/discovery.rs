//! Block discovery: hotness counters, the dedup state machine, the bounded nomination FIFO, the
//! invalidation generation and the observable counters.
//!
//! Each entry of a block at its physical entry PC bumps a saturating counter. When the counter
//! reaches the threshold the block is nominated exactly once per generation: a
//! [`TranslationRequest`] snapshotting its bytes is queued, or the block is excluded by policy.
//! Counting and nomination never touch the executed architectural sequence.

use std::collections::{BTreeMap, VecDeque};
use vstd::prelude::*;
use super::{
    block_terminator, request_model, DiscoveryStats, MicroOp, RequestModel, TerminatorKind,
    TranslationRequest,
};
use super::probe::{empty_probe, inc, observed, AdmissionProbeStats, AdmissionReason, ProbeModel, WitnessModel};

verus! {

broadcast use vstd::laws_cmp::group_laws_cmp, vstd::std_specs::btree::group_btree_axioms;

/// Hotness threshold: a block is promoted at its `N`-th execution. A tunable, not a law.
pub const HOT_THRESHOLD: u32 = 64;

/// Bounded FIFO capacity for pending requests; overflow drops nominations and counts them.
pub const MAX_QUEUE: usize = 4096;

/// Cap on the live hotness-counter map; once full, new cold keys are not tracked.
pub const MAX_COUNTS: usize = 65536;

/// Per-block nomination state: a block past the threshold never re-nominates within a
/// generation.
#[derive(Debug, Clone, Copy, PartialEq, Eq, Structural)]
pub enum NomState {
    /// A request is, or was, queued for this block.
    Queued,
    /// Excluded from translation by its terminator.
    Excluded,
}

/// `a + 1`, saturating at `u32::MAX`.
pub open spec fn inc32(a: u32) -> u32 {
    if a == u32::MAX { a } else { (a + 1) as u32 }
}

/// `a + b`, saturating at `u32::MAX`.
pub open spec fn add32(a: u32, b: u32) -> u32 {
    if a + b > u32::MAX { u32::MAX } else { (a + b) as u32 }
}

/// What discovery holds, as contracts see it.
pub struct DiscoveryModel {
    pub generation: u64,
    /// Live counters of blocks below the threshold, by physical entry PC.
    pub counts: Map<u64, u32>,
    /// Blocks past the threshold and what became of them.
    pub state: Map<u64, NomState>,
    /// Entries of a queued block observed while it waits to be compiled.
    pub hits: Map<u64, u32>,
    /// Pending requests, oldest first.
    pub queue: Seq<RequestModel>,
    pub stats: DiscoveryStats,
    pub queue_cap: usize,
    pub counts_cap: usize,
    pub threshold: u32,
    pub probe: Option<ProbeModel>,
}

/// The models of a sequence of requests.
pub open spec fn request_models(q: Seq<TranslationRequest>) -> Seq<RequestModel> {
    q.map_values(|r: TranslationRequest| r@)
}

/// Discovery's bounds: the queue and the counter map stay within their capacities.
pub open spec fn bounded(d: DiscoveryModel) -> bool {
    &&& d.queue.len() <= d.queue_cap
    &&& d.counts.dom().finite()
    &&& d.counts.len() <= d.counts_cap
    &&& d.queue_cap >= 1
    &&& d.counts_cap >= 1
    &&& d.threshold >= 1
}

/// The transition of a block past the threshold: it leaves the counter map and is either
/// excluded (CSR or `wfi` terminator) or marked queued, with a request pushed when the queue has
/// room.
pub open spec fn nominate(d: DiscoveryModel, phys: u64, ops: Seq<MicroOp>) -> (DiscoveryModel, AdmissionReason) {
    let d1 = DiscoveryModel { counts: d.counts.remove(phys), ..d };
    let term = block_terminator(ops);
    if term == TerminatorKind::Csr || term == TerminatorKind::Wfi {
        (DiscoveryModel {
            state: d1.state.insert(phys, NomState::Excluded),
            stats: DiscoveryStats { excluded: inc(d.stats.excluded), ..d.stats },
            ..d1
        }, AdmissionReason::Excluded)
    } else if d.queue.len() >= d.queue_cap {
        (DiscoveryModel {
            state: d1.state.insert(phys, NomState::Queued),
            stats: DiscoveryStats { dropped_overflow: inc(d.stats.dropped_overflow), ..d.stats },
            ..d1
        }, AdmissionReason::FifoOverflow)
    } else {
        let q = d.queue.push(request_model(phys, ops, d.generation));
        (DiscoveryModel {
            state: d1.state.insert(phys, NomState::Queued),
            queue: q,
            stats: DiscoveryStats {
                nominated: inc(d.stats.nominated),
                queue_hwm: if q.len() > d.stats.queue_hwm { q.len() as usize } else { d.stats.queue_hwm },
                ..d.stats
            },
            ..d1
        }, AdmissionReason::Nominated)
    }
}

/// The decision at one entry of the block at `phys`: an already decided block is deduplicated
/// (a queued one accrues priority); otherwise its counter advances, a new cold block is tracked
/// only while the counter map has room, and reaching the threshold nominates it.
pub open spec fn decide(d: DiscoveryModel, phys: u64, ops: Seq<MicroOp>) -> (DiscoveryModel, AdmissionReason) {
    if d.state.contains_key(phys) {
        let stats = DiscoveryStats { deduped: inc(d.stats.deduped), ..d.stats };
        if d.state[phys] == NomState::Queued {
            let h = if d.hits.contains_key(phys) { d.hits[phys] } else { 0u32 };
            (DiscoveryModel { stats, hits: d.hits.insert(phys, inc32(h)), ..d }, AdmissionReason::DedupQueued)
        } else {
            (DiscoveryModel { stats, ..d }, AdmissionReason::DedupExcluded)
        }
    } else if d.counts.contains_key(phys) {
        let c = inc32(d.counts[phys]);
        let d1 = DiscoveryModel { counts: d.counts.insert(phys, c), ..d };
        if c == d.threshold { nominate(d1, phys, ops) } else { (d1, AdmissionReason::Counting) }
    } else if d.counts.len() >= d.counts_cap {
        (DiscoveryModel { stats: DiscoveryStats { counts_dropped: inc(d.stats.counts_dropped), ..d.stats }, ..d },
            AdmissionReason::CountsFull)
    } else {
        let d1 = DiscoveryModel { counts: d.counts.insert(phys, 1u32), ..d };
        if d.threshold == 1 { nominate(d1, phys, ops) } else { (d1, AdmissionReason::Counting) }
    }
}

/// Whether the entry of `phys` with `ops` queues a request.
pub open spec fn nominates(d: DiscoveryModel, phys: u64, ops: Seq<MicroOp>) -> bool {
    decide(d, phys, ops).1 == AdmissionReason::Nominated
}

/// Every op of `ops` is at most 4 bytes long, so its bytes can be snapshotted.
pub open spec fn lens_ok(ops: Seq<MicroOp>) -> bool {
    forall|i: int| 0 <= i < ops.len() ==> #[trigger] ops[i].len <= 4
}

/// Discovery after one entry of the block at `phys`: the decision, then, when the admission
/// probe is on, its observation of the entry with the counter map's size before the decision.
pub open spec fn entered(d: DiscoveryModel, phys: u64, ops: Seq<MicroOp>) -> DiscoveryModel {
    let (d2, reason) = decide(d, phys, ops);
    DiscoveryModel {
        probe: match d.probe {
            Some(p) => Some(observed(p, phys, ops, reason, d.counts.len() as usize)),
            None => None,
        },
        ..d2
    }
}

/// A probe restarted for generation `g` after `p`: enabled, empty, one more reset.
pub open spec fn restarted(p: Option<ProbeModel>, g: u64) -> Option<ProbeModel> {
    match p {
        Some(p) => Some(ProbeModel { enabled: true, generation: g, generation_resets: inc(p.generation_resets), ..empty_probe() }),
        None => None,
    }
}

/// What the admission probe reports for discovery `d`: its data (or an empty, disabled probe)
/// with the live generation, counter-map size, capacity and threshold, and each record marked by
/// whether its exact request is queued now.
pub open spec fn report(d: DiscoveryModel) -> ProbeModel {
    let p = match d.probe { Some(p) => p, None => empty_probe() };
    ProbeModel {
        generation: d.generation,
        counts_len: d.counts.len() as usize,
        counts_capacity: d.counts_cap,
        threshold: d.threshold,
        records: p.records.map_values(|w: WitnessModel| WitnessModel { discovery_queued: d.queue.contains(w.request), ..w }),
        ..p
    }
}

/// The block-discovery front end.
pub struct BlockDiscovery {
    generation: u64,
    counts: BTreeMap<u64, u32>,
    state: BTreeMap<u64, NomState>,
    queued_hits: BTreeMap<u64, u32>,
    queue: VecDeque<TranslationRequest>,
    stats: DiscoveryStats,
    queue_cap: usize,
    counts_cap: usize,
    threshold: u32,
    admission_probe: Option<AdmissionProbeStats>,
}

impl View for BlockDiscovery {
    type V = DiscoveryModel;

    closed spec fn view(&self) -> DiscoveryModel {
        DiscoveryModel {
            generation: self.generation,
            counts: self.counts@,
            state: self.state@,
            hits: self.queued_hits@,
            queue: request_models(self.queue@),
            stats: self.stats,
            queue_cap: self.queue_cap,
            counts_cap: self.counts_cap,
            threshold: self.threshold,
            probe: match self.admission_probe {
                Some(p) => Some(p@),
                None => None,
            },
        }
    }
}

impl Default for BlockDiscovery {
    /// A fresh discovery front end with the default bounds.
    fn default() -> (r: Self)
        ensures r@ == fresh(MAX_QUEUE, MAX_COUNTS), bounded(r@),
    {
        Self::new()
    }
}

/// A fresh front end at generation 1 with bounds `queue_cap` and `counts_cap` (each at least 1)
/// and the default threshold.
pub open spec fn fresh(queue_cap: usize, counts_cap: usize) -> DiscoveryModel {
    DiscoveryModel {
        generation: 1,
        counts: Map::empty(),
        state: Map::empty(),
        hits: Map::empty(),
        queue: Seq::empty(),
        stats: DiscoveryStats {
            nominated: 0, deduped: 0, dropped_stale: 0, dropped_overflow: 0, counts_dropped: 0,
            excluded: 0, queue_depth: 0, queue_hwm: 0, candidates: 0, generation: 1,
            cache_flushes: 0, blocks_discarded: 0, fence_i: 0,
        },
        queue_cap: if queue_cap == 0 { 1 } else { queue_cap },
        counts_cap: if counts_cap == 0 { 1 } else { counts_cap },
        threshold: HOT_THRESHOLD,
        probe: None,
    }
}

impl BlockDiscovery {
    /// A fresh discovery front end at generation 1 with the default bounds.
    pub fn new() -> (r: Self)
        ensures r@ == fresh(MAX_QUEUE, MAX_COUNTS), bounded(r@),
    {
        Self::with_bounds(MAX_QUEUE, MAX_COUNTS)
    }

    /// A discovery front end with explicit bounds.
    pub fn with_bounds(queue_cap: usize, counts_cap: usize) -> (r: Self)
        ensures r@ == fresh(queue_cap, counts_cap), bounded(r@),
    {
        let mut stats = DiscoveryStats::default();
        stats.generation = 1;
        let r = BlockDiscovery {
            generation: 1,
            counts: BTreeMap::new(),
            state: BTreeMap::new(),
            queued_hits: BTreeMap::new(),
            queue: VecDeque::new(),
            stats,
            queue_cap: if queue_cap == 0 { 1 } else { queue_cap },
            counts_cap: if counts_cap == 0 { 1 } else { counts_cap },
            threshold: HOT_THRESHOLD,
            admission_probe: None,
        };
        assert(r@.queue =~= Seq::<RequestModel>::empty());
        r
    }
    fn reset_admission_generation(&mut self)
        ensures final(self)@ == (DiscoveryModel { probe: restarted(old(self)@.probe, old(self)@.generation), ..old(self)@ }),
    {
        let g = self.generation;
        match &mut self.admission_probe {
            Some(probe) => {
                let resets = probe.generation_resets.saturating_add(1);
                let mut fresh_probe = AdmissionProbeStats::default();
                fresh_probe.enabled = true;
                fresh_probe.generation = g;
                fresh_probe.generation_resets = resets;
                *probe = fresh_probe;
            }
            None => {}
        }
    }

    /// Explicit diagnostic toggle. Enabling an enabled probe keeps its window; disabling
    /// discards it. Discovery itself is untouched.
    pub fn set_admission_probe(&mut self, enabled: bool)
        ensures
            final(self)@ == (DiscoveryModel {
                probe: if !enabled {
                    None
                } else if old(self)@.probe is None {
                    Some(ProbeModel { enabled: true, generation: old(self)@.generation, ..empty_probe() })
                } else {
                    old(self)@.probe
                },
                ..old(self)@
            }),
    {
        if enabled && self.admission_probe.is_none() {
            let mut probe = AdmissionProbeStats::default();
            probe.enabled = true;
            probe.generation = self.generation;
            self.admission_probe = Some(probe);
        } else if !enabled {
            self.admission_probe = None;
        }
    }

    /// Whether `request` is queued exactly; never removes or reorders queued work.
    pub fn contains_request(&self, request: &TranslationRequest) -> (r: bool)
        ensures r == self@.queue.contains(request@),
    {
        let mut i: usize = 0;
        while i < self.queue.len()
            invariant
                i <= self.queue@.len(),
                forall|k: int| 0 <= k < i ==> self.queue@[k]@ != request@,
            decreases self.queue@.len() - i,
        {
            if same_request(&self.queue[i], request) {
                assert(self@.queue[i as int] == request@);
                return true;
            }
            i = i + 1;
        }
        assert forall|k: int| 0 <= k < self@.queue.len() implies self@.queue[k] != request@ by {
            assert(self@.queue[k] == self.queue@[k]@);
        }
        false
    }

    /// The admission probe's report; see [`report`].
    pub fn admission_probe_stats(&self) -> (r: AdmissionProbeStats)
        ensures r@ == report(self@),
    {
        let mut result = match &self.admission_probe {
            Some(p) => p.duplicate(),
            None => AdmissionProbeStats::default(),
        };
        result.generation = self.generation;
        result.counts_len = self.counts.len();
        result.counts_capacity = self.counts_cap;
        result.threshold = self.threshold;
        let ghost base = result@.records;
        let mut i: usize = 0;
        while i < result.records.len()
            invariant
                i <= result.records@.len(), result@.records.len() == base.len(),
                forall|k: int| 0 <= k < i ==> #[trigger] result@.records[k]
                    == (WitnessModel { discovery_queued: self@.queue.contains(base[k].request), ..base[k] }),
                forall|k: int| i <= k < base.len() ==> #[trigger] result@.records[k] == base[k],
                (ProbeModel { records: Seq::empty(), ..result@ }) == (ProbeModel { records: Seq::empty(), ..report(self@) }),
                base == match self@.probe { Some(p) => p.records, None => empty_probe().records },
            decreases result.records@.len() - i,
        {
            let queued = self.contains_request(&result.records[i].request);
            let ghost before = result.records@;
            let ghost before_models = result@.records;
            assert(before_models[i as int] == base[i as int]);
            result.records[i].discovery_queued = queued;
            assert(result.records@ =~= before.update(i as int, result.records@[i as int]));
            assert(result@.records =~= before_models.update(i as int, WitnessModel { discovery_queued: queued, ..base[i as int] }));
            i = i + 1;
        }
        assert(result@.records =~= base.map_values(|w: WitnessModel| WitnessModel { discovery_queued: self@.queue.contains(w.request), ..w }));
        result
    }

    /// Set the promotion threshold (at least 1).
    pub fn set_threshold(&mut self, threshold: u32)
        ensures
            final(self)@ == (DiscoveryModel { threshold: if threshold == 0 { 1 } else { threshold }, ..old(self)@ }),
            bounded(old(self)@) ==> bounded(final(self)@),
    {
        self.threshold = if threshold == 0 { 1 } else { threshold };
    }

    /// The current promotion threshold.
    pub fn threshold(&self) -> (r: u32)
        ensures r == self@.threshold,
    {
        self.threshold
    }

    /// Reset all discovery state (a configuration change): bump the generation, so any request
    /// already handed out is stale, and clear counters, states and the queue. The queue's
    /// high-water mark survives.
    pub fn reset(&mut self)
        ensures
            final(self)@ == (DiscoveryModel {
                generation: vstd::wrapping::u64_specs::wrapping_add(old(self)@.generation, 1),
                counts: Map::empty(),
                state: Map::empty(),
                hits: Map::empty(),
                queue: Seq::empty(),
                stats: DiscoveryStats {
                    generation: vstd::wrapping::u64_specs::wrapping_add(old(self)@.generation, 1),
                    queue_hwm: old(self)@.stats.queue_hwm,
                    ..fresh(1, 1).stats
                },
                probe: restarted(old(self)@.probe, vstd::wrapping::u64_specs::wrapping_add(old(self)@.generation, 1)),
                ..old(self)@
            }),
            bounded(old(self)@) ==> bounded(final(self)@),
    {
        let hwm = self.stats.queue_hwm;
        self.generation = self.generation.wrapping_add(1);
        self.reset_admission_generation();
        self.counts = BTreeMap::new();
        self.state = BTreeMap::new();
        self.queued_hits = BTreeMap::new();
        self.queue = VecDeque::new();
        let mut stats = DiscoveryStats::default();
        stats.generation = self.generation;
        stats.queue_hwm = hwm;
        self.stats = stats;
        assert(self@.queue =~= Seq::<RequestModel>::empty());
    }

    /// Reset the hotness and dedup state of one block without a generation bump, so a block
    /// whose compiled code was evicted is re-nominated from cold when it runs hot again.
    pub fn renominate(&mut self, phys_pc: u64)
        ensures
            final(self)@ == (DiscoveryModel {
                counts: old(self)@.counts.remove(phys_pc),
                state: old(self)@.state.remove(phys_pc),
                hits: old(self)@.hits.remove(phys_pc),
                ..old(self)@
            }),
            bounded(old(self)@) ==> bounded(final(self)@),
    {
        self.counts.remove(&phys_pc);
        self.state.remove(&phys_pc);
        self.queued_hits.remove(&phys_pc);
        proof {
            assert(old(self)@.counts.remove(phys_pc).dom() =~= old(self)@.counts.dom().remove(phys_pc));
        }
    }

    /// Record an invalidation (`fence.i`, a page flush, a whole-cache flush): bump the generation
    /// and clear the hotness and dedup state. Queued requests stay: they now carry a stale
    /// generation and are refused by [`BlockDiscovery::install_check`].
    pub fn on_invalidate(&mut self)
        ensures
            final(self)@ == (DiscoveryModel {
                generation: vstd::wrapping::u64_specs::wrapping_add(old(self)@.generation, 1),
                counts: Map::empty(),
                state: Map::empty(),
                hits: Map::empty(),
                stats: DiscoveryStats {
                    generation: vstd::wrapping::u64_specs::wrapping_add(old(self)@.generation, 1),
                    ..old(self)@.stats
                },
                probe: restarted(old(self)@.probe, vstd::wrapping::u64_specs::wrapping_add(old(self)@.generation, 1)),
                ..old(self)@
            }),
            bounded(old(self)@) ==> bounded(final(self)@),
    {
        self.generation = self.generation.wrapping_add(1);
        self.reset_admission_generation();
        self.stats.generation = self.generation;
        self.counts = BTreeMap::new();
        self.state = BTreeMap::new();
        self.queued_hits = BTreeMap::new();
    }

    /// Validate a request at install time: it is safe to install iff its generation is the live
    /// one and its snapshotted bytes equal the live guest bytes. A refused request is counted as
    /// stale.
    pub fn install_check(&mut self, req: &TranslationRequest, live_bytes: &[u8]) -> (r: bool)
        ensures
            r == (req.generation == old(self)@.generation && req.code_bytes@ == live_bytes@),
            final(self)@ == (DiscoveryModel {
                stats: DiscoveryStats {
                    dropped_stale: if r { old(self)@.stats.dropped_stale } else { inc(old(self)@.stats.dropped_stale) },
                    ..old(self)@.stats
                },
                ..old(self)@
            }),
            bounded(old(self)@) ==> bounded(final(self)@),
    {
        let ok = req.generation == self.generation && same_bytes(req.code_bytes.as_slice(), live_bytes);
        if !ok {
            self.stats.dropped_stale = self.stats.dropped_stale.saturating_add(1);
        }
        ok
    }

    /// Drain the pending queue, oldest first.
    pub fn take_requests(&mut self) -> (r: Vec<TranslationRequest>)
        ensures
            request_models(r@) == old(self)@.queue,
            final(self)@ == (DiscoveryModel { queue: Seq::empty(), ..old(self)@ }),
            bounded(old(self)@) ==> bounded(final(self)@),
    {
        let n = self.queue.len();
        let r = self.take_requests_bounded(n);
        assert(old(self)@.queue.skip(n as int) =~= Seq::<RequestModel>::empty());
        assert(old(self)@.queue.take(n as int) =~= old(self)@.queue);
        r
    }

    /// Remove at most `max` pending requests, oldest first, leaving the rest queued.
    pub fn take_requests_bounded(&mut self, max: usize) -> (r: Vec<TranslationRequest>)
        ensures
            request_models(r@) == old(self)@.queue.take(if max < old(self)@.queue.len() { max as int } else { old(self)@.queue.len() as int }),
            final(self)@ == (DiscoveryModel {
                queue: old(self)@.queue.skip(if max < old(self)@.queue.len() { max as int } else { old(self)@.queue.len() as int }),
                ..old(self)@
            }),
            bounded(old(self)@) ==> bounded(final(self)@),
    {
        let count = if max < self.queue.len() { max } else { self.queue.len() };
        let ghost q0 = self@.queue;
        let mut out: Vec<TranslationRequest> = Vec::new();
        let mut i: usize = 0;
        assert(q0.skip(0) =~= q0);
        assert(request_models(out@) =~= q0.take(0));
        while i < count
            invariant
                i <= count, count <= q0.len(),
                request_models(out@) == q0.take(i as int),
                self@ == (DiscoveryModel { queue: q0.skip(i as int), ..old(self)@ }),
            decreases count - i,
        {
            let ghost before = self.queue@;
            let front = self.queue.pop_front();
            match front {
                Some(req) => {
                    assert(request_models(before) == q0.skip(i as int));
                    assert(self.queue@ == before.subrange(1, before.len() as int));
                    assert(request_models(self.queue@) =~= request_models(before).subrange(1, before.len() as int));
                    assert(before.len() == request_models(before).len());
                    assert(before.len() == q0.len() - i);
                    assert(q0.skip(i as int).subrange(1, before.len() as int) =~= q0.skip(i + 1));
                    assert(request_models(self.queue@) =~= q0.skip(i + 1));
                    let ghost prev = out@;
                    out.push(req);
                    assert(request_models(prev.push(req)) =~= request_models(prev).push(req@));
                    assert(req@ == q0[i as int]) by {
                        assert(request_models(before)[0] == req@);
                    }
                    assert(q0.take(i + 1) =~= q0.take(i as int).push(q0[i as int]));
                }
                None => {
                    assert(request_models(before).len() == 0);
                }
            }
            i = i + 1;
        }
        out
    }

    /// The next pending request, without removing it.
    pub fn peek_request(&self) -> (r: Option<&TranslationRequest>)
        ensures
            match r {
                Some(q) => self@.queue.len() > 0 && q@ == self@.queue[0],
                None => self@.queue.len() == 0,
            },
    {
        if self.queue.len() == 0 {
            None
        } else {
            Some(&self.queue[0])
        }
    }

    /// The current pending-queue depth.
    pub fn queue_len(&self) -> (r: usize)
        ensures r == self@.queue.len(),
    {
        self.queue.len()
    }

    /// The observable counters, with the live queue depth and candidate count.
    pub fn stats(&self) -> (r: DiscoveryStats)
        ensures
            r == (DiscoveryStats {
                queue_depth: self@.queue.len() as usize,
                candidates: self@.counts.len() as usize,
                ..self@.stats
            }),
            bounded(self@) ==> r.queue_depth <= self@.queue_cap && r.candidates <= self@.counts_cap,
    {
        let mut r = self.stats;
        r.queue_depth = self.queue.len();
        r.candidates = self.counts.len();
        r
    }

    /// The live discovery generation.
    pub fn generation(&self) -> (r: u64)
        ensures r == self@.generation,
    {
        self.generation
    }

    /// The hotness of the pending block at `phys`: the threshold plus the entries observed while
    /// it waited in the queue, saturating.
    pub fn queued_hotness(&self, phys: u64) -> (r: u32)
        ensures r == add32(self@.threshold, if self@.hits.contains_key(phys) { self@.hits[phys] } else { 0u32 }),
    {
        let extra: u32 = match self.queued_hits.get(&phys) {
            Some(h) => *h,
            None => 0,
        };
        self.threshold.saturating_add(extra)
    }

    /// The live counters of blocks below the threshold.
    pub fn counts(&self) -> (r: &BTreeMap<u64, u32>)
        ensures r@ == self@.counts,
    {
        &self.counts
    }

    /// The nomination state of blocks past the threshold.
    pub fn state(&self) -> (r: &BTreeMap<u64, NomState>)
        ensures r@ == self@.state,
    {
        &self.state
    }

    /// Entries of queued blocks observed while they wait.
    pub fn queued_hits(&self) -> (r: &BTreeMap<u64, u32>)
        ensures r@ == self@.hits,
    {
        &self.queued_hits
    }

    /// The pending requests, oldest first.
    pub fn queue(&self) -> (r: &VecDeque<TranslationRequest>)
        ensures request_models(r@) == self@.queue,
    {
        &self.queue
    }

    /// The admission probe's live data, if it is on.
    pub fn admission_probe(&self) -> (r: &Option<AdmissionProbeStats>)
        ensures
            match r {
                Some(p) => self@.probe == Some(p@),
                None => self@.probe is None,
            },
    {
        &self.admission_probe
    }

    /// Transition a block past the threshold; see [`nominate`].
    fn nominate(&mut self, phys: u64, ops: &[MicroOp]) -> (r: AdmissionReason)
        requires
            nominate(old(self)@, phys, ops@).1 == AdmissionReason::Nominated ==> lens_ok(ops@),
        ensures (final(self)@, r) == nominate(old(self)@, phys, ops@),
    {
        self.counts.remove(&phys);
        let term = TerminatorKind::of_block(ops);
        if term.is_excluded() {
            self.state.insert(phys, NomState::Excluded);
            self.stats.excluded = self.stats.excluded.saturating_add(1);
            return AdmissionReason::Excluded;
        }
        // Marked queued even when the push fails, so an overflow-dropped block does not
        // re-nominate on every later entry.
        self.state.insert(phys, NomState::Queued);
        if self.queue.len() >= self.queue_cap {
            self.stats.dropped_overflow = self.stats.dropped_overflow.saturating_add(1);
            return AdmissionReason::FifoOverflow;
        }
        let req = TranslationRequest::from_block(phys, ops, self.generation);
        let ghost q0 = self.queue@;
        self.queue.push_back(req);
        assert(request_models(q0.push(req)) =~= request_models(q0).push(req@));
        self.stats.nominated = self.stats.nominated.saturating_add(1);
        if self.queue.len() > self.stats.queue_hwm {
            self.stats.queue_hwm = self.queue.len();
        }
        AdmissionReason::Nominated
    }

    /// The decision at one entry of the block at `phys`; see [`decide`].
    fn on_block_entry_decision(&mut self, phys: u64, ops: &[MicroOp]) -> (r: AdmissionReason)
        requires nominates(old(self)@, phys, ops@) ==> lens_ok(ops@),
        ensures (final(self)@, r) == decide(old(self)@, phys, ops@),
    {
        match self.state.get(&phys) {
            Some(st) => {
                let st = *st;
                self.stats.deduped = self.stats.deduped.saturating_add(1);
                if st == NomState::Queued {
                    let h: u32 = match self.queued_hits.get(&phys) {
                        Some(h) => *h,
                        None => 0,
                    };
                    self.queued_hits.insert(phys, h.saturating_add(1));
                    return AdmissionReason::DedupQueued;
                }
                return AdmissionReason::DedupExcluded;
            }
            None => {}
        }
        let count: u32 = match self.counts.get(&phys) {
            Some(c) => {
                let c2 = c.saturating_add(1);
                self.counts.insert(phys, c2);
                c2
            }
            None => {
                if self.counts.len() >= self.counts_cap {
                    self.stats.counts_dropped = self.stats.counts_dropped.saturating_add(1);
                    return AdmissionReason::CountsFull;
                }
                self.counts.insert(phys, 1);
                1
            }
        };
        if count == self.threshold {
            return self.nominate(phys, ops);
        }
        AdmissionReason::Counting
    }

    /// Note one entry of the block at physical `phys` whose walked ops are `ops`; see
    /// [`entered`]. A nomination snapshots the ops' bytes, so a nominating entry needs ops of at
    /// most 4 bytes each.
    pub fn on_block_entry(&mut self, phys: u64, ops: &[MicroOp])
        requires nominates(old(self)@, phys, ops@) ==> lens_ok(ops@),
        ensures
            final(self)@ == entered(old(self)@, phys, ops@),
            bounded(old(self)@) ==> bounded(final(self)@),
    {
        proof { lemma_decide_bounded(old(self)@, phys, ops@); }
        if self.admission_probe.is_none() {
            self.on_block_entry_decision(phys, ops);
            return;
        }
        let counts_len = self.counts.len();
        let reason = self.on_block_entry_decision(phys, ops);
        match &mut self.admission_probe {
            Some(probe) => probe.observe(phys, ops, reason, counts_len),
            None => {}
        }
    }
}

/// Whether two requests are the same: entry PC, bytes, lengths, terminator and generation.
fn same_request(a: &TranslationRequest, b: &TranslationRequest) -> (r: bool)
    ensures r == (a@ == b@),
{
    a.phys_pc == b.phys_pc && a.generation == b.generation && a.terminator == b.terminator
        && same_bytes(a.code_bytes.as_slice(), b.code_bytes.as_slice())
        && same_bytes(a.op_lens.as_slice(), b.op_lens.as_slice())
}

/// Whether two byte strings are equal.
fn same_bytes(a: &[u8], b: &[u8]) -> (r: bool)
    ensures r == (a@ == b@),
{
    if a.len() != b.len() {
        return false;
    }
    let mut i: usize = 0;
    while i < a.len()
        invariant
            i <= a@.len(), a@.len() == b@.len(),
            forall|k: int| 0 <= k < i ==> a@[k] == b@[k],
        decreases a@.len() - i,
    {
        if a[i] != b[i] {
            return false;
        }
        i = i + 1;
    }
    assert(a@ =~= b@);
    true
}

/// Discovery after `n` consecutive entries of the block at `phys` with `ops`.
pub open spec fn repeated_entries(d: DiscoveryModel, phys: u64, ops: Seq<MicroOp>, n: nat) -> DiscoveryModel
    decreases n,
{
    if n == 0 { d } else { decide(repeated_entries(d, phys, ops, (n - 1) as nat), phys, ops).0 }
}

/// The queue after a block is nominated: a request pushed unless the block is excluded or the
/// queue is full.
pub open spec fn queue_after_nomination(d: DiscoveryModel, phys: u64, ops: Seq<MicroOp>) -> Seq<RequestModel> {
    let term = block_terminator(ops);
    if term == TerminatorKind::Csr || term == TerminatorKind::Wfi || d.queue.len() >= d.queue_cap {
        d.queue
    } else {
        d.queue.push(request_model(phys, ops, d.generation))
    }
}

/// A block that discovery has not seen, entered repeatedly, is counted below the threshold, is
/// nominated exactly at its threshold-th entry, and is only deduplicated afterwards: the queue
/// gains at most one request for it, stamped with the current generation.
pub proof fn lemma_fires_exactly_at_threshold(d: DiscoveryModel, phys: u64, ops: Seq<MicroOp>, n: nat)
    requires
        !d.state.contains_key(phys), !d.counts.contains_key(phys),
        d.counts.dom().finite(), d.counts.len() < d.counts_cap, d.threshold >= 1,
    ensures
        repeated_entries(d, phys, ops, n).generation == d.generation,
        repeated_entries(d, phys, ops, n).queue_cap == d.queue_cap,
        repeated_entries(d, phys, ops, n).threshold == d.threshold,
        n < d.threshold ==> repeated_entries(d, phys, ops, n).queue == d.queue
            && !repeated_entries(d, phys, ops, n).state.contains_key(phys)
            && (n == 0 ==> !repeated_entries(d, phys, ops, n).counts.contains_key(phys))
            && (n > 0 ==> repeated_entries(d, phys, ops, n).counts.contains_key(phys)
                && repeated_entries(d, phys, ops, n).counts[phys] == n),
        n >= d.threshold ==> repeated_entries(d, phys, ops, n).queue == queue_after_nomination(d, phys, ops)
            && repeated_entries(d, phys, ops, n).state.contains_key(phys),
    decreases n,
{
    if n > 0 {
        let k = (n - 1) as nat;
        lemma_fires_exactly_at_threshold(d, phys, ops, k);
        let prev = repeated_entries(d, phys, ops, k);
        let t = d.threshold;
        if k >= t {
            assert(prev.state.contains_key(phys));
            assert(decide(prev, phys, ops).0.queue == prev.queue);
        } else {
            assert(!prev.state.contains_key(phys));
            assert(prev.queue == d.queue);
            if k == 0 {
                assert(prev == d);
                let d1 = DiscoveryModel { counts: d.counts.insert(phys, 1u32), ..d };
                if t == 1 {
                    assert(decide(prev, phys, ops) == nominate(d1, phys, ops));
                } else {
                    assert(decide(prev, phys, ops) == (d1, AdmissionReason::Counting));
                }
            } else {
                assert(prev.counts.contains_key(phys) && prev.counts[phys] == k);
                let c = inc32(prev.counts[phys]);
                assert(c == k + 1);
                let d1 = DiscoveryModel { counts: prev.counts.insert(phys, c), ..prev };
                if k + 1 == t {
                    assert(decide(prev, phys, ops) == nominate(d1, phys, ops));
                } else {
                    assert(decide(prev, phys, ops) == (d1, AdmissionReason::Counting));
                }
            }
        }
    }
}

/// An invalidation makes every request stamped before it stale: whatever the live bytes, the
/// install check refuses it.
pub proof fn lemma_invalidation_refuses_earlier_requests(before: DiscoveryModel, after: DiscoveryModel, req: RequestModel, live: Seq<u8>)
    requires
        after.generation == vstd::wrapping::u64_specs::wrapping_add(before.generation, 1),
        req.generation == before.generation,
    ensures !(req.generation == after.generation && req.code_bytes == live),
{
}

/// Every decision keeps discovery within its bounds.
pub proof fn lemma_decide_bounded(d: DiscoveryModel, phys: u64, ops: Seq<MicroOp>)
    ensures bounded(d) ==> bounded(decide(d, phys, ops).0),
{
    if bounded(d) && !d.state.contains_key(phys) {
        if d.counts.contains_key(phys) {
            let c = inc32(d.counts[phys]);
            let m = d.counts.insert(phys, c);
            assert(m.dom() =~= d.counts.dom());
            assert(m.remove(phys).dom() =~= d.counts.dom().remove(phys));
            assert(m.remove(phys).dom().len() <= d.counts.dom().len());
        } else if d.counts.len() < d.counts_cap {
            let m = d.counts.insert(phys, 1u32);
            assert(m.dom() =~= d.counts.dom().insert(phys));
            assert(m.remove(phys).dom() =~= d.counts.dom());
        }
    }
}

} // verus!
