//! Profiling: a fixed-memory hot-PC histogram, an injected monotonic host timer, per-subsystem
//! time accounting, and compile-pause accounting.
//!
//! CPU interpretation time is never measured directly: it is what remains of the run's total
//! once every other subsystem's measured time is taken away, saturating at zero.

use vstd::prelude::*;

pub mod clock;
pub mod histogram;
pub mod pause;
pub mod report;

pub use clock::{FixedTimer, HostTimer};
pub use histogram::HotHistogram;
pub use pause::JitPauseStats;
pub use report::Subsystem;
use pause::sat_add;
use report::{SUBSYSTEM_COUNT, subsystem_at, subsystem_index, subsystem_pos};

verus! {

/// The per-subsystem host-time accumulator the cold paths (device dispatch, page walks) write
/// to during a run.
#[derive(Clone, Copy)]
pub struct TimeAccum {
    /// Nanoseconds per subsystem, indexed by position in the stable subsystem order.
    pub ns: [u64; 11],
    /// Page-table walks timed over the run.
    pub walk_count: u64,
}

impl TimeAccum {
    /// A fresh, zeroed accumulator.
    pub fn new() -> (r: Self)
        ensures forall|i: int| 0 <= i < SUBSYSTEM_COUNT ==> r.ns@[i] == 0, r.walk_count == 0,
    {
        TimeAccum { ns: [0u64; 11], walk_count: 0 }
    }

    /// Attribute `ns` nanoseconds to `sub` (saturating).
    pub fn add_ns(&mut self, sub: Subsystem, ns: u64)
        ensures
            final(self).ns@ == old(self).ns@.update(subsystem_pos(sub), sat_add(old(self).ns@[subsystem_pos(sub)], ns)),
            final(self).walk_count == old(self).walk_count,
    {
        let idx = subsystem_index(sub);
        self.ns[idx] = self.ns[idx].saturating_add(ns);
    }

    /// Note one timed page-table walk.
    pub fn note_walk(&mut self)
        requires old(self).walk_count < u64::MAX,
        ensures final(self).walk_count == old(self).walk_count + 1, final(self).ns == old(self).ns,
    {
        self.walk_count += 1;
    }
}

impl Default for TimeAccum {
    fn default() -> (r: Self)
        ensures forall|i: int| 0 <= i < SUBSYSTEM_COUNT ==> r.ns@[i] == 0, r.walk_count == 0,
    {
        TimeAccum::new()
    }
}

/// The saturating sum of `ns[i]` for `i < n`, skipping CPU interpretation.
pub open spec fn attributed_ns(ns: Seq<u64>, n: int) -> u64
    decreases n,
{
    if n <= 0 {
        0
    } else if n - 1 == subsystem_pos(Subsystem::CpuInterp) {
        attributed_ns(ns, n - 1)
    } else {
        sat_add(attributed_ns(ns, n - 1), ns[n - 1])
    }
}

/// The per-subsystem breakdown of a run of `total_ns`: every measured subsystem's own time, and
/// CPU interpretation as what remains of the total, saturating at zero.
pub open spec fn breakdown(total_ns: u64, ns: Seq<u64>) -> Seq<(Subsystem, u64)> {
    let attributed = attributed_ns(ns, SUBSYSTEM_COUNT as int);
    Seq::new(SUBSYSTEM_COUNT as nat, |i: int| (
        subsystem_at(i),
        if i == subsystem_pos(Subsystem::CpuInterp) {
            if total_ns >= attributed { (total_ns - attributed) as u64 } else { 0u64 }
        } else {
            ns[i]
        },
    ))
}

/// Per-subsystem nanoseconds of a run of `total_ns`, in the stable subsystem order, from the
/// measured time `ns`: CPU interpretation is derived by subtraction.
pub fn subsystem_breakdown(total_ns: u64, ns: &[u64; 11]) -> (r: Vec<(Subsystem, u64)>)
    ensures r@ == breakdown(total_ns, ns@),
{
    let cpu = subsystem_index(Subsystem::CpuInterp);
    let mut attributed: u64 = 0;
    let mut i: usize = 0;
    while i < SUBSYSTEM_COUNT
        invariant i <= SUBSYSTEM_COUNT, cpu == 0, attributed == attributed_ns(ns@, i as int),
        decreases SUBSYSTEM_COUNT - i,
    {
        if i != cpu {
            attributed = attributed.saturating_add(ns[i]);
        }
        i += 1;
    }
    let cpu_ns = total_ns.saturating_sub(attributed);
    let mut out: Vec<(Subsystem, u64)> = Vec::new();
    let mut i: usize = 0;
    while i < SUBSYSTEM_COUNT
        invariant
            i <= SUBSYSTEM_COUNT, cpu == 0,
            attributed == attributed_ns(ns@, SUBSYSTEM_COUNT as int),
            cpu_ns == (if total_ns >= attributed { (total_ns - attributed) as u64 } else { 0u64 }),
            out@ == breakdown(total_ns, ns@).subrange(0, i as int),
        decreases SUBSYSTEM_COUNT - i,
    {
        let sub = subsystem_of(i);
        let v = if i == cpu { cpu_ns } else { ns[i] };
        out.push((sub, v));
        i += 1;
        assert(out@ =~= breakdown(total_ns, ns@).subrange(0, i as int));
    }
    assert(out@ =~= breakdown(total_ns, ns@));
    out
}

fn subsystem_of(i: usize) -> (r: Subsystem)
    requires i < SUBSYSTEM_COUNT,
    ensures r == subsystem_at(i as int),
{
    if i == 0 { Subsystem::CpuInterp }
    else if i == 1 { Subsystem::MmuWalk }
    else if i == 2 { Subsystem::Clint }
    else if i == 3 { Subsystem::Plic }
    else if i == 4 { Subsystem::Uart }
    else if i == 5 { Subsystem::VirtioBlk }
    else if i == 6 { Subsystem::VirtioNet }
    else if i == 7 { Subsystem::VirtioRng }
    else if i == 8 { Subsystem::Rtc }
    else if i == 9 { Subsystem::Syscon }
    else { Subsystem::Other }
}

/// The profiling aggregate: the hot-PC histogram, per-subsystem nanoseconds, and the sampling
/// and walk counters.
pub struct ProfStats {
    hist: HotHistogram,
    ns: [u64; 11],
    sample_count: u64,
    walk_count: u64,
}

impl ProfStats {
    /// The histogram.
    pub closed spec fn spec_hist(&self) -> HotHistogram {
        self.hist
    }

    /// Nanoseconds attributed per subsystem.
    pub closed spec fn spec_ns(&self) -> Seq<u64> {
        self.ns@
    }

    /// PC samples taken.
    pub closed spec fn spec_sample_count(&self) -> u64 {
        self.sample_count
    }

    /// Page-table walks noted.
    pub closed spec fn spec_walk_count(&self) -> u64 {
        self.walk_count
    }

    /// The histogram has its fixed size.
    pub open spec fn wf(&self) -> bool {
        self.spec_hist().wf()
    }

    /// A fresh, empty aggregate.
    pub fn new() -> (r: Self)
        ensures
            r.wf(), r.spec_hist().spec_samples() == 0, r.spec_hist().spec_collisions() == 0,
            r.spec_hist().spec_slots() == Seq::new(histogram::SIZE as nat, |i: int| (0u64, 0u32)),
            forall|i: int| 0 <= i < SUBSYSTEM_COUNT ==> r.spec_ns()[i] == 0,
            r.spec_sample_count() == 0, r.spec_walk_count() == 0,
    {
        ProfStats { hist: HotHistogram::new(), ns: [0u64; 11], sample_count: 0, walk_count: 0 }
    }

    /// Record one PC sample: into the histogram, and into the sample count.
    pub fn record_pc(&mut self, phys_pc: u64)
        requires
            old(self).wf(),
            old(self).spec_hist().spec_samples() < u64::MAX,
            old(self).spec_hist().spec_collisions() < u64::MAX,
            old(self).spec_sample_count() < u64::MAX,
        ensures
            final(self).wf(),
            final(self).spec_sample_count() == old(self).spec_sample_count() + 1,
            final(self).spec_hist().spec_samples() == old(self).spec_hist().spec_samples() + 1,
            final(self).spec_hist().spec_collisions() == old(self).spec_hist().spec_collisions() + if histogram::is_collision(
                old(self).spec_hist().spec_slots()[histogram::slot_index(phys_pc >> histogram::REGION_SHIFT)],
                phys_pc >> histogram::REGION_SHIFT,
            ) { 1int } else { 0int },
            final(self).spec_hist().spec_slots() == old(self).spec_hist().spec_slots().update(
                histogram::slot_index(phys_pc >> histogram::REGION_SHIFT),
                histogram::recorded_slot(
                    old(self).spec_hist().spec_slots()[histogram::slot_index(phys_pc >> histogram::REGION_SHIFT)],
                    phys_pc >> histogram::REGION_SHIFT,
                ),
            ),
            final(self).spec_ns() == old(self).spec_ns(),
            final(self).spec_walk_count() == old(self).spec_walk_count(),
    {
        self.hist.record(phys_pc);
        self.sample_count += 1;
    }

    /// Attribute `ns` nanoseconds to `sub` (saturating).
    pub fn add_ns(&mut self, sub: Subsystem, ns: u64)
        ensures
            final(self).spec_ns() == old(self).spec_ns().update(subsystem_pos(sub), sat_add(old(self).spec_ns()[subsystem_pos(sub)], ns)),
            final(self).spec_hist() == old(self).spec_hist(),
            final(self).spec_sample_count() == old(self).spec_sample_count(),
            final(self).spec_walk_count() == old(self).spec_walk_count(),
    {
        let idx = subsystem_index(sub);
        self.ns[idx] = self.ns[idx].saturating_add(ns);
    }

    /// Note one page-table walk.
    pub fn note_walk(&mut self)
        requires old(self).spec_walk_count() < u64::MAX,
        ensures
            final(self).spec_walk_count() == old(self).spec_walk_count() + 1,
            final(self).spec_ns() == old(self).spec_ns(),
            final(self).spec_hist() == old(self).spec_hist(),
            final(self).spec_sample_count() == old(self).spec_sample_count(),
    {
        self.walk_count += 1;
    }

    /// The raw histogram.
    pub fn histogram(&self) -> (r: &HotHistogram)
        ensures *r == self.spec_hist(),
    {
        &self.hist
    }

    /// PC samples taken (the report's percentage denominator).
    pub fn sample_count(&self) -> (r: u64)
        ensures r == self.spec_sample_count(),
    {
        self.sample_count
    }

    /// Page-table walks noted.
    pub fn walk_count(&self) -> (r: u64)
        ensures r == self.spec_walk_count(),
    {
        self.walk_count
    }

    /// Per-subsystem nanoseconds of a run of `total_ns` from this aggregate's own accumulators.
    pub fn subsystem_ns(&self, total_ns: u64) -> (r: Vec<(Subsystem, u64)>)
        ensures r@ == breakdown(total_ns, self.spec_ns()),
    {
        subsystem_breakdown(total_ns, &self.ns)
    }
}

impl Default for ProfStats {
    fn default() -> (r: Self)
        ensures r.wf(), r.spec_sample_count() == 0, r.spec_walk_count() == 0,
    {
        ProfStats::new()
    }
}

} // verus!
