//! The admission probe: a bounded, generation-local diagnostic that records the exact identity of
//! blocks refused because the counter map was full, and every later decision for them.
//!
//! Observation never changes a discovery decision and never re-reads guest memory.

use vstd::prelude::*;
use super::{
    block_terminator, request_model, AdmissionReasons, MicroOp, RequestModel, TranslationRequest,
    MAX_BLOCK_OPS,
};

verus! {

/// First-seen refusal sample size; a diagnostic bound, never an admission-policy capacity.
pub const MAX_ADMISSION_WITNESSES: usize = 32;

/// The mutually exclusive decisions at an interpreted block entry.
#[derive(Debug, Clone, Copy, PartialEq, Eq, Structural)]
pub enum AdmissionReason {
    /// The counter map was full: the block was not tracked.
    CountsFull,
    /// The block's counter advanced without reaching the threshold.
    Counting,
    /// The block reached the threshold and a request was queued.
    Nominated,
    /// The block reached the threshold and was excluded by policy.
    Excluded,
    /// The block was already nominated.
    DedupQueued,
    /// The block was already excluded.
    DedupExcluded,
    /// The block reached the threshold but the queue was full.
    FifoOverflow,
}

/// `a + 1`, saturating at `u64::MAX`.
pub open spec fn inc(a: u64) -> u64 {
    if a == u64::MAX { a } else { (a + 1) as u64 }
}

/// The reason counters after one more entry for `reason`.
pub open spec fn recorded(r: AdmissionReasons, reason: AdmissionReason) -> AdmissionReasons {
    match reason {
        AdmissionReason::CountsFull => AdmissionReasons { counts_full: inc(r.counts_full), ..r },
        AdmissionReason::Counting => AdmissionReasons { counting: inc(r.counting), ..r },
        AdmissionReason::Nominated => AdmissionReasons { nominated: inc(r.nominated), ..r },
        AdmissionReason::Excluded => AdmissionReasons { excluded: inc(r.excluded), ..r },
        AdmissionReason::DedupQueued => AdmissionReasons { dedup_queued: inc(r.dedup_queued), ..r },
        AdmissionReason::DedupExcluded => AdmissionReasons { dedup_excluded: inc(r.dedup_excluded), ..r },
        AdmissionReason::FifoOverflow => AdmissionReasons { fifo_overflow: inc(r.fifo_overflow), ..r },
    }
}

impl AdmissionReasons {
    fn record(&mut self, reason: AdmissionReason)
        ensures *final(self) == recorded(*old(self), reason),
    {
        match reason {
            AdmissionReason::CountsFull => self.counts_full = self.counts_full.saturating_add(1),
            AdmissionReason::Counting => self.counting = self.counting.saturating_add(1),
            AdmissionReason::Nominated => self.nominated = self.nominated.saturating_add(1),
            AdmissionReason::Excluded => self.excluded = self.excluded.saturating_add(1),
            AdmissionReason::DedupQueued => self.dedup_queued = self.dedup_queued.saturating_add(1),
            AdmissionReason::DedupExcluded => self.dedup_excluded = self.dedup_excluded.saturating_add(1),
            AdmissionReason::FifoOverflow => self.fifo_overflow = self.fifo_overflow.saturating_add(1),
        }
    }
}

/// One retained entry identity: the block's request and ops, how often it was entered, and why.
#[derive(Debug, Clone, PartialEq, Eq)]
pub struct AdmissionWitness {
    pub request: TranslationRequest,
    pub ops: Vec<MicroOp>,
    pub entries: u64,
    pub first_entry: u64,
    pub last_entry: u64,
    pub first_counts_len: usize,
    pub last_counts_len: usize,
    pub reasons: AdmissionReasons,
    /// Exact request membership in the discovery queue at report time.
    pub discovery_queued: bool,
    pub compile_queued: bool,
    /// PC-only residency at report time; `None` means no executor.
    pub executor_resident_at_report: Option<bool>,
}

/// What a witness holds, as contracts see it.
pub struct WitnessModel {
    pub request: RequestModel,
    pub ops: Seq<MicroOp>,
    pub entries: u64,
    pub first_entry: u64,
    pub last_entry: u64,
    pub first_counts_len: usize,
    pub last_counts_len: usize,
    pub reasons: AdmissionReasons,
    pub discovery_queued: bool,
    pub compile_queued: bool,
    pub executor_resident_at_report: Option<bool>,
}

impl View for AdmissionWitness {
    type V = WitnessModel;

    open spec fn view(&self) -> WitnessModel {
        WitnessModel {
            request: self.request@,
            ops: self.ops@,
            entries: self.entries,
            first_entry: self.first_entry,
            last_entry: self.last_entry,
            first_counts_len: self.first_counts_len,
            last_counts_len: self.last_counts_len,
            reasons: self.reasons,
            discovery_queued: self.discovery_queued,
            compile_queued: self.compile_queued,
            executor_resident_at_report: self.executor_resident_at_report,
        }
    }
}

/// Bounded, generation-local diagnostic data. Overflow counts refused entries, not distinct
/// identities; the first-seen sample cannot establish absence or heavy hitters.
#[derive(Debug, Clone, PartialEq, Eq)]
pub struct AdmissionProbeStats {
    pub enabled: bool,
    pub generation: u64,
    pub generation_resets: u64,
    pub observed_entries: u64,
    pub full_map_refusals: u64,
    pub overflow_refusals: u64,
    pub invalid_blocks: u64,
    pub counts_len: usize,
    pub counts_capacity: usize,
    pub threshold: u32,
    pub records: Vec<AdmissionWitness>,
}

/// What a probe holds, as contracts see it.
pub struct ProbeModel {
    pub enabled: bool,
    pub generation: u64,
    pub generation_resets: u64,
    pub observed_entries: u64,
    pub full_map_refusals: u64,
    pub overflow_refusals: u64,
    pub invalid_blocks: u64,
    pub counts_len: usize,
    pub counts_capacity: usize,
    pub threshold: u32,
    pub records: Seq<WitnessModel>,
}

impl View for AdmissionProbeStats {
    type V = ProbeModel;

    open spec fn view(&self) -> ProbeModel {
        ProbeModel {
            enabled: self.enabled,
            generation: self.generation,
            generation_resets: self.generation_resets,
            observed_entries: self.observed_entries,
            full_map_refusals: self.full_map_refusals,
            overflow_refusals: self.overflow_refusals,
            invalid_blocks: self.invalid_blocks,
            counts_len: self.counts_len,
            counts_capacity: self.counts_capacity,
            threshold: self.threshold,
            records: witness_models(self.records@),
        }
    }
}

/// The models of a sequence of witnesses.
pub open spec fn witness_models(s: Seq<AdmissionWitness>) -> Seq<WitnessModel> {
    s.map_values(|w: AdmissionWitness| w@)
}

/// A probe with every counter zero, no records, disabled.
pub open spec fn empty_probe() -> ProbeModel {
    ProbeModel {
        enabled: false,
        generation: 0,
        generation_resets: 0,
        observed_entries: 0,
        full_map_refusals: 0,
        overflow_refusals: 0,
        invalid_blocks: 0,
        counts_len: 0,
        counts_capacity: 0,
        threshold: 0,
        records: Seq::empty(),
    }
}

/// Whether `ops` has the shape of a walked block: one to [`MAX_BLOCK_OPS`] ops, each 2 or 4
/// bytes long.
pub open spec fn ops_valid(ops: Seq<MicroOp>) -> bool {
    &&& 1 <= ops.len() <= MAX_BLOCK_OPS
    &&& forall|i: int| 0 <= i < ops.len() ==> (#[trigger] ops[i]).len == 2 || ops[i].len == 4
}

/// Whether witness `w` is the identity `(phys, generation, ops)`.
pub open spec fn same_identity(w: WitnessModel, phys: u64, generation: u64, ops: Seq<MicroOp>) -> bool {
    w.request.phys_pc == phys && w.request.generation == generation && w.ops == ops
}

/// The first record from `i` with the identity `(phys, generation, ops)`, if any.
pub open spec fn find_identity(rs: Seq<WitnessModel>, phys: u64, generation: u64, ops: Seq<MicroOp>, i: nat) -> Option<nat>
    decreases rs.len() - i,
{
    if i >= rs.len() {
        None
    } else if same_identity(rs[i as int], phys, generation, ops) {
        Some(i)
    } else {
        find_identity(rs, phys, generation, ops, i + 1)
    }
}

/// A fresh witness for a refused entry, the `observed`-th observed entry.
pub open spec fn new_witness(phys: u64, ops: Seq<MicroOp>, generation: u64, observed: u64, counts_len: usize) -> WitnessModel {
    WitnessModel {
        request: request_model(phys, ops, generation),
        ops,
        entries: 0,
        first_entry: observed,
        last_entry: observed,
        first_counts_len: counts_len,
        last_counts_len: counts_len,
        reasons: AdmissionReasons {
            counts_full: 0, counting: 0, nominated: 0, excluded: 0, dedup_queued: 0, dedup_excluded: 0, fifo_overflow: 0,
        },
        discovery_queued: false,
        compile_queued: false,
        executor_resident_at_report: None,
    }
}

/// A witness after one more entry, the `observed`-th, decided as `reason`.
pub open spec fn bumped(w: WitnessModel, observed: u64, counts_len: usize, reason: AdmissionReason) -> WitnessModel {
    WitnessModel {
        entries: inc(w.entries),
        last_entry: observed,
        last_counts_len: counts_len,
        reasons: recorded(w.reasons, reason),
        ..w
    }
}

/// The probe after observing one block entry at `phys` with `ops`, decided as `reason`, when the
/// counter map held `counts_len` candidates. Every entry is counted; a full-map refusal opens a
/// record for a new identity (up to [`MAX_ADMISSION_WITNESSES`]); an entry of a retained
/// identity updates its record; a malformed block is counted and nothing else.
pub open spec fn observed(p: ProbeModel, phys: u64, ops: Seq<MicroOp>, reason: AdmissionReason, counts_len: usize) -> ProbeModel {
    let full = reason == AdmissionReason::CountsFull;
    let n = inc(p.observed_entries);
    let p1 = ProbeModel {
        observed_entries: n,
        full_map_refusals: if full { inc(p.full_map_refusals) } else { p.full_map_refusals },
        ..p
    };
    if !full && p.records.len() == 0 {
        p1
    } else if !ops_valid(ops) {
        ProbeModel { invalid_blocks: inc(p.invalid_blocks), ..p1 }
    } else {
        match find_identity(p.records, phys, p.generation, ops, 0) {
            Some(i) => ProbeModel {
                records: p.records.update(i as int, bumped(p.records[i as int], n, counts_len, reason)),
                ..p1
            },
            None => if !full {
                p1
            } else if p.records.len() == MAX_ADMISSION_WITNESSES {
                ProbeModel { overflow_refusals: inc(p.overflow_refusals), ..p1 }
            } else {
                ProbeModel {
                    records: p.records.push(bumped(new_witness(phys, ops, p.generation, n, counts_len), n, counts_len, reason)),
                    ..p1
                }
            },
        }
    }
}

proof fn lemma_find_identity(rs: Seq<WitnessModel>, phys: u64, generation: u64, ops: Seq<MicroOp>, i: nat)
    ensures
        match find_identity(rs, phys, generation, ops, i) {
            Some(k) => i <= k < rs.len() && same_identity(rs[k as int], phys, generation, ops),
            None => forall|k: int| i <= k < rs.len() ==> !same_identity(#[trigger] rs[k], phys, generation, ops),
        },
    decreases rs.len() - i,
{
    if i < rs.len() && !same_identity(rs[i as int], phys, generation, ops) {
        lemma_find_identity(rs, phys, generation, ops, i + 1);
    }
}

fn same_ops(a: &[MicroOp], b: &[MicroOp]) -> (r: bool)
    ensures r == (a@ == b@),
{
    if a.len() != b.len() {
        return false;
    }
    let mut i: usize = 0;
    while i < a.len()
        invariant
            i <= a@.len(), a@.len() == b@.len(),
            forall|k: int| 0 <= k < i ==> a@[k] == b@[k],
        decreases a@.len() - i,
    {
        if a[i] != b[i] {
            return false;
        }
        i = i + 1;
    }
    assert(a@ =~= b@);
    true
}

/// A copy of a slice of plain values.
pub fn copy_slice<T: Copy>(v: &[T]) -> (r: Vec<T>)
    ensures r@ == v@,
{
    let mut r: Vec<T> = Vec::new();
    let mut i: usize = 0;
    while i < v.len()
        invariant
            i <= v@.len(),
            r@ == v@.subrange(0, i as int),
        decreases v@.len() - i,
    {
        r.push(v[i]);
        assert(r@ =~= v@.subrange(0, i + 1));
        i = i + 1;
    }
    assert(r@ =~= v@);
    r
}

impl TranslationRequest {
    /// A copy of the request.
    pub fn duplicate(&self) -> (r: Self)
        ensures r@ == self@,
    {
        TranslationRequest {
            phys_pc: self.phys_pc,
            code_bytes: copy_slice(self.code_bytes.as_slice()),
            op_lens: copy_slice(self.op_lens.as_slice()),
            terminator: self.terminator,
            generation: self.generation,
        }
    }
}

impl AdmissionWitness {
    /// A copy of the witness.
    pub fn duplicate(&self) -> (r: Self)
        ensures r@ == self@,
    {
        AdmissionWitness {
            request: self.request.duplicate(),
            ops: copy_slice(self.ops.as_slice()),
            entries: self.entries,
            first_entry: self.first_entry,
            last_entry: self.last_entry,
            first_counts_len: self.first_counts_len,
            last_counts_len: self.last_counts_len,
            reasons: AdmissionReasons { ..self.reasons },
            discovery_queued: self.discovery_queued,
            compile_queued: self.compile_queued,
            executor_resident_at_report: self.executor_resident_at_report,
        }
    }
}

impl Default for AdmissionProbeStats {
    /// Disabled, every counter zero, no records.
    fn default() -> (r: Self)
        ensures r@ == empty_probe(),
    {
        let r = AdmissionProbeStats {
            enabled: false,
            generation: 0,
            generation_resets: 0,
            observed_entries: 0,
            full_map_refusals: 0,
            overflow_refusals: 0,
            invalid_blocks: 0,
            counts_len: 0,
            counts_capacity: 0,
            threshold: 0,
            records: Vec::new(),
        };
        assert(r@.records =~= Seq::<WitnessModel>::empty());
        r
    }
}

impl AdmissionProbeStats {
    /// A copy of the probe data.
    pub fn duplicate(&self) -> (r: Self)
        ensures r@ == self@,
    {
        let mut records: Vec<AdmissionWitness> = Vec::new();
        let mut i: usize = 0;
        while i < self.records.len()
            invariant
                i <= self.records@.len(),
                witness_models(records@) == witness_models(self.records@.subrange(0, i as int)),
            decreases self.records@.len() - i,
        {
            let w = self.records[i].duplicate();
            let ghost prev = records@;
            records.push(w);
            assert(self.records@.subrange(0, i + 1) =~= self.records@.subrange(0, i as int).push(self.records@[i as int]));
            assert(witness_models(prev.push(w)) =~= witness_models(prev).push(w@));
            assert(witness_models(self.records@.subrange(0, i as int).push(self.records@[i as int]))
                =~= witness_models(self.records@.subrange(0, i as int)).push(self.records@[i as int]@));
            assert(witness_models(records@) =~= witness_models(self.records@.subrange(0, i + 1)));
            i = i + 1;
        }
        assert(self.records@.subrange(0, self.records@.len() as int) =~= self.records@);
        AdmissionProbeStats { records, ..*self }
    }

    /// Observe one block entry at `phys` with `ops`, decided as `reason`, when the counter map
    /// held `counts_len` candidates.
    pub fn observe(&mut self, phys: u64, ops: &[MicroOp], reason: AdmissionReason, counts_len: usize)
        ensures final(self)@ == observed(old(self)@, phys, ops@, reason, counts_len),
    {
        self.observed_entries = self.observed_entries.saturating_add(1);
        if reason == AdmissionReason::CountsFull {
            self.full_map_refusals = self.full_map_refusals.saturating_add(1);
        }
        if reason != AdmissionReason::CountsFull && self.records.len() == 0 {
            return;
        }
        let mut valid = ops.len() != 0 && ops.len() <= MAX_BLOCK_OPS;
        let mut j: usize = 0;
        while valid && j < ops.len()
            invariant
                j <= ops@.len(),
                valid ==> 1 <= ops@.len() <= MAX_BLOCK_OPS,
                valid ==> forall|k: int| 0 <= k < j ==> (#[trigger] ops@[k]).len == 2 || ops@[k].len == 4,
                !valid ==> !ops_valid(ops@),
            decreases ops@.len() - j,
        {
            if ops[j].len != 2 && ops[j].len != 4 {
                valid = false;
            }
            j = j + 1;
        }
        if !valid {
            self.invalid_blocks = self.invalid_blocks.saturating_add(1);
            return;
        }
        assert(ops_valid(ops@));
        let ghost rs = old(self)@.records;
        proof { lemma_find_identity(rs, phys, self.generation, ops@, 0); }
        let mut index: usize = 0;
        let mut found = false;
        while !found && index < self.records.len()
            invariant
                index <= self.records@.len(), witness_models(self.records@) == rs,
                rs == old(self)@.records, self.generation == old(self).generation,
                found ==> index < rs.len() && find_identity(rs, phys, self.generation, ops@, 0) == Some(index as nat),
                !found ==> find_identity(rs, phys, self.generation, ops@, 0) == find_identity(rs, phys, self.generation, ops@, index as nat),
            decreases self.records@.len() - index + (if found { 0int } else { 1int }),
        {
            let row = &self.records[index];
            assert(row@ == rs[index as int]);
            if row.request.phys_pc == phys && row.request.generation == self.generation && same_ops(row.ops.as_slice(), ops) {
                found = true;
            } else {
                index = index + 1;
            }
        }
        if !found {
            if reason != AdmissionReason::CountsFull {
                return;
            }
            if self.records.len() == MAX_ADMISSION_WITNESSES {
                self.overflow_refusals = self.overflow_refusals.saturating_add(1);
                return;
            }
            let request = TranslationRequest::from_block(phys, ops, self.generation);
            let w = AdmissionWitness {
                request,
                ops: copy_slice(ops),
                entries: 0,
                first_entry: self.observed_entries,
                last_entry: self.observed_entries,
                first_counts_len: counts_len,
                last_counts_len: counts_len,
                reasons: AdmissionReasons::default(),
                discovery_queued: false,
                compile_queued: false,
                executor_resident_at_report: None,
            };
            assert(w@ == new_witness(phys, ops@, self.generation, self.observed_entries, counts_len));
            let ghost prev = self.records@;
            self.records.push(w);
            assert(witness_models(prev.push(w)) =~= witness_models(prev).push(w@));
            index = self.records.len() - 1;
        }
        let n = self.observed_entries;
        let ghost models_before = witness_models(self.records@);
        let ghost row_before = self.records@[index as int]@;
        let ghost vec_before = self.records@;
        {
            let row = &mut self.records[index];
            row.entries = row.entries.saturating_add(1);
            row.last_entry = n;
            row.last_counts_len = counts_len;
            row.reasons.record(reason);
        }
        proof {
            assert(self.records@[index as int]@ == bumped(row_before, n, counts_len, reason));
            assert(self.records@ =~= vec_before.update(index as int, self.records@[index as int]));
            assert(witness_models(self.records@) =~= models_before.update(index as int, bumped(row_before, n, counts_len, reason)));
            let nw = new_witness(phys, ops@, self.generation, n, counts_len);
            if found {
                assert(models_before == rs);
                assert(row_before == rs[index as int]);
                assert(find_identity(rs, phys, self.generation, ops@, 0) == Some(index as nat));
            } else {
                assert(find_identity(rs, phys, self.generation, ops@, 0) is None);
                assert(models_before == rs.push(nw));
                assert(index == rs.len());
                assert(rs.push(bumped(nw, n, counts_len, reason)) =~= rs.push(nw).update(index as int, bumped(nw, n, counts_len, reason)));
            }
        }
    }
}

} // verus!
