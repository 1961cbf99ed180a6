//! Interrupt-storm, livelock and WFI-deadlock instrumentation.
//!
//! [`IrqStats`] is plain-counter instrumentation: every hook is one increment, and the detectors
//! run only at dispatch-quantum boundaries. Counts are fixed arrays keyed by the low bits of
//! `scause` and by PLIC source id.

use vstd::prelude::*;
use vstd::string::StringExecFns;
use crate::text::{digits, push_digits};

verus! {

/// PLIC sources.
pub const NUM_IRQ: usize = 32;
/// `scause` code space the counters bucket by (codes 0..=15).
pub const NUM_CAUSE: usize = 16;

/// A storm diagnosis: sustained trap rate with the hottest line named.
#[derive(Debug, Clone, Copy, PartialEq, Eq)]
pub struct StormReport {
    /// Traps in the window that tripped the detector.
    pub window_traps: u64,
    /// Retired instructions in that window.
    pub window_retired: u64,
    /// The PLIC source with the most claims in that window (id, count), if any.
    pub hot_irq: Option<(usize, u64)>,
}

/// Always-on interrupt/trap counters and the sliding-window storm detector.
pub struct IrqStats {
    /// Retired instructions (the progress signal).
    pub retired: u64,
    /// Synchronous exceptions taken, by `scause` code.
    pub exc: [u64; 16],
    /// Interrupts taken, by `scause` code.
    pub int: [u64; 16],
    /// PLIC claims, by source id.
    pub claims: [u64; 32],
    /// `WFI` instructions retired.
    pub wfi: u64,
    /// The most recent storm the detector fired on.
    pub last_storm: Option<StormReport>,
    /// The most recent WFI-deadlock report.
    pub last_wfi_report: Option<String>,
    wfi_reported: bool,
    window_traps: u64,
    window_start_retired: u64,
    consecutive_hot: u32,
    claims_window_start: [u64; 32],
}

/// The source with the largest positive count in `c` (the highest id among equals), or `None`
/// when every count is zero; the search covers ids `0..n`.
pub open spec fn hottest(c: Seq<u64>, n: int) -> Option<(usize, u64)>
    decreases n,
{
    if n <= 0 {
        None
    } else {
        let rest = hottest(c, n - 1);
        let v = c[n - 1];
        if v == 0 {
            rest
        } else {
            match rest {
                None => Some(((n - 1) as usize, v)),
                Some((i, best)) => if v >= best { Some(((n - 1) as usize, v)) } else { rest },
            }
        }
    }
}

/// Per-source claims in the current window: live count minus the window-start snapshot,
/// saturating at zero.
pub open spec fn window_deltas(now: Seq<u64>, start: Seq<u64>) -> Seq<u64> {
    Seq::new(32, |i: int| if now[i] >= start[i] { (now[i] - start[i]) as u64 } else { 0u64 })
}

/// The WFI-deadlock message.
pub open spec fn wfi_message(retired: u64, wfi: u64) -> Seq<char> {
    "WFI with no wakeup source armed — the guest will idle forever (no timer deadline, no pending+enabled device interrupt). retired="@
        + digits(retired as nat, 10) + ", wfi_count="@ + digits(wfi as nat, 10)
}

impl IrqStats {
    pub closed spec fn spec_retired(&self) -> u64 { self.retired }
    pub closed spec fn spec_exc(&self) -> Seq<u64> { self.exc@ }
    pub closed spec fn spec_int(&self) -> Seq<u64> { self.int@ }
    pub closed spec fn spec_claims(&self) -> Seq<u64> { self.claims@ }
    pub closed spec fn spec_wfi(&self) -> u64 { self.wfi }
    pub closed spec fn spec_last_storm(&self) -> Option<StormReport> { self.last_storm }
    pub closed spec fn spec_wfi_reported(&self) -> bool { self.wfi_reported }
    pub closed spec fn spec_window_traps(&self) -> u64 { self.window_traps }
    pub closed spec fn spec_window_start(&self) -> u64 { self.window_start_retired }
    pub closed spec fn spec_consecutive_hot(&self) -> u32 { self.consecutive_hot }
    pub closed spec fn spec_claims_start(&self) -> Seq<u64> { self.claims_window_start@ }

    /// All counters zero, no report, watchdog armed.
    pub fn new() -> (r: Self)
        ensures
            r.spec_retired() == 0, r.spec_wfi() == 0, r.spec_window_traps() == 0,
            r.spec_window_start() == 0, r.spec_consecutive_hot() == 0, !r.spec_wfi_reported(),
            r.spec_claims() == Seq::new(32, |i: int| 0u64), r.spec_claims_start() == Seq::new(32, |i: int| 0u64),
            r.spec_exc() == Seq::new(16, |i: int| 0u64), r.spec_int() == Seq::new(16, |i: int| 0u64),
            r.spec_last_storm() is None,
    {
        let r = IrqStats {
            retired: 0,
            exc: [0u64; 16],
            int: [0u64; 16],
            claims: [0u64; 32],
            wfi: 0,
            last_storm: None,
            last_wfi_report: None,
            wfi_reported: false,
            window_traps: 0,
            window_start_retired: 0,
            consecutive_hot: 0,
            claims_window_start: [0u64; 32],
        };
        assert(r.spec_claims() =~= Seq::new(32, |i: int| 0u64));
        assert(r.spec_claims_start() =~= Seq::new(32, |i: int| 0u64));
        assert(r.spec_exc() =~= Seq::new(16, |i: int| 0u64));
        assert(r.spec_int() =~= Seq::new(16, |i: int| 0u64));
        r
    }

    /// The most recent WFI-deadlock report ([`IrqStats::last_wfi_report`]).
    pub closed spec fn spec_last_wfi_report(&self) -> Option<String> {
        self.last_wfi_report
    }

    /// One retired instruction.
    pub fn on_retire(&mut self)
        requires old(self).spec_retired() < u64::MAX,
        ensures
            final(self).spec_retired() == old(self).spec_retired() + 1,
            final(self).spec_window_traps() == old(self).spec_window_traps(),
            final(self).spec_window_start() == old(self).spec_window_start(),
            final(self).spec_claims() == old(self).spec_claims(),
            final(self).spec_claims_start() == old(self).spec_claims_start(),
            final(self).spec_consecutive_hot() == old(self).spec_consecutive_hot(),
            final(self).spec_wfi_reported() == old(self).spec_wfi_reported(),
    {
        self.retired = self.retired + 1;
    }

    /// A synchronous exception was delivered (only the low four bits of `cause` count).
    pub fn on_exception(&mut self, cause: u64)
        requires
            old(self).spec_exc()[(cause & 15) as int] < u64::MAX,
            old(self).spec_window_traps() < u64::MAX,
        ensures
            final(self).spec_exc() == old(self).spec_exc().update((cause & 15) as int, (old(self).spec_exc()[(cause & 15) as int] + 1) as u64),
            final(self).spec_window_traps() == old(self).spec_window_traps() + 1,
            final(self).spec_retired() == old(self).spec_retired(),
            final(self).spec_window_start() == old(self).spec_window_start(),
            final(self).spec_claims() == old(self).spec_claims(),
            final(self).spec_claims_start() == old(self).spec_claims_start(),
            final(self).spec_consecutive_hot() == old(self).spec_consecutive_hot(),
    {
        let c = (cause & 15) as usize;
        assert(cause & 15 < 16) by (bit_vector);
        self.exc[c] = self.exc[c] + 1;
        self.window_traps = self.window_traps + 1;
    }

    /// An interrupt was delivered (only the low four bits of `cause` count).
    pub fn on_interrupt(&mut self, cause: u64)
        requires
            old(self).spec_int()[(cause & 15) as int] < u64::MAX,
            old(self).spec_window_traps() < u64::MAX,
        ensures
            final(self).spec_int() == old(self).spec_int().update((cause & 15) as int, (old(self).spec_int()[(cause & 15) as int] + 1) as u64),
            final(self).spec_window_traps() == old(self).spec_window_traps() + 1,
            final(self).spec_retired() == old(self).spec_retired(),
            final(self).spec_window_start() == old(self).spec_window_start(),
            final(self).spec_claims() == old(self).spec_claims(),
            final(self).spec_claims_start() == old(self).spec_claims_start(),
            final(self).spec_consecutive_hot() == old(self).spec_consecutive_hot(),
    {
        let c = (cause & 15) as usize;
        assert(cause & 15 < 16) by (bit_vector);
        self.int[c] = self.int[c] + 1;
        self.window_traps = self.window_traps + 1;
    }

    /// A PLIC claim returned source `id`; 0 (spurious) and out-of-range ids are ignored.
    pub fn on_claim(&mut self, id: u32)
        requires id != 0 && id < 32 ==> old(self).spec_claims()[id as int] < u64::MAX,
        ensures
            final(self).spec_claims() == (if id != 0 && id < 32 {
                old(self).spec_claims().update(id as int, (old(self).spec_claims()[id as int] + 1) as u64)
            } else {
                old(self).spec_claims()
            }),
            final(self).spec_retired() == old(self).spec_retired(),
            final(self).spec_window_traps() == old(self).spec_window_traps(),
            final(self).spec_window_start() == old(self).spec_window_start(),
            final(self).spec_claims_start() == old(self).spec_claims_start(),
            final(self).spec_consecutive_hot() == old(self).spec_consecutive_hot(),
    {
        if id != 0 && id < 32 {
            self.claims[id as usize] = self.claims[id as usize] + 1;
        }
    }

    /// A `WFI` retired.
    pub fn on_wfi(&mut self)
        requires old(self).spec_wfi() < u64::MAX,
        ensures
            final(self).spec_wfi() == old(self).spec_wfi() + 1,
            final(self).spec_retired() == old(self).spec_retired(),
            final(self).spec_wfi_reported() == old(self).spec_wfi_reported(),
    {
        self.wfi = self.wfi + 1;
    }

    /// The source with the most cumulative claims (highest id among equals), if any claimed.
    pub fn hottest_irq(&self) -> (r: Option<(usize, u64)>)
        ensures r == hottest(self.spec_claims(), 32),
    {
        let mut best: Option<(usize, u64)> = None;
        let mut i: usize = 0;
        while i < 32
            invariant i <= 32, self.claims@.len() == 32, best == hottest(self.claims@, i as int),
            decreases 32 - i,
        {
            let v = self.claims[i];
            if v != 0 {
                best = match best {
                    None => Some((i, v)),
                    Some((b, bv)) => if v >= bv { Some((i, v)) } else { Some((b, bv)) },
                };
            }
            i += 1;
        }
        best
    }

    /// The source that claimed the most in the current window (highest id among equals).
    fn hottest_irq_in_window(&self) -> (r: Option<(usize, u64)>)
        ensures r == hottest(window_deltas(self.spec_claims(), self.spec_claims_start()), 32),
    {
        let ghost d = window_deltas(self.claims@, self.claims_window_start@);
        let mut best: Option<(usize, u64)> = None;
        let mut i: usize = 0;
        while i < 32
            invariant i <= 32, self.claims@.len() == 32, self.claims_window_start@.len() == 32,
                d == window_deltas(self.claims@, self.claims_window_start@),
                best == hottest(d, i as int),
            decreases 32 - i,
        {
            let v = self.claims[i].saturating_sub(self.claims_window_start[i]);
            if v != 0 {
                best = match best {
                    None => Some((i, v)),
                    Some((b, bv)) => if v >= bv { Some((i, v)) } else { Some((b, bv)) },
                };
            }
            i += 1;
        }
        best
    }
}


impl IrqStats {
    /// The retired instructions in the current window.
    pub open spec fn retired_in_window(&self) -> u64 {
        if self.spec_retired() >= self.spec_window_start() { (self.spec_retired() - self.spec_window_start()) as u64 } else { 0 }
    }

    /// The report the storm detector gives for this state, if it fires.
    pub open spec fn storm_report(&self) -> StormReport {
        StormReport {
            window_traps: self.spec_window_traps(),
            window_retired: self.retired_in_window(),
            hot_irq: hottest(window_deltas(self.spec_claims(), self.spec_claims_start()), 32),
        }
    }

    /// Whether the detector fires: the window has closed, its trap rate exceeds
    /// `threshold / window`, and it completes `needed` consecutive hot windows.
    pub open spec fn storm_fires(&self, window: u64, threshold: u64, needed: u32) -> bool {
        let w = if window == 0 { 1 } else { window };
        let rin = self.retired_in_window();
        rin >= w && self.spec_window_traps() * w > threshold * rin && self.spec_consecutive_hot() + 1 >= needed
    }

    /// Sliding-window storm check, called when a trap lands. A window closes once `window`
    /// instructions have retired; a closed window is hot when its trap rate exceeds
    /// `threshold / window`, and `needed` consecutive hot windows fire a report naming the line
    /// hot in the firing window, resetting the streak. A window too short to close yet returns
    /// `None` and changes nothing.
    pub fn check_storm(&mut self, window: u64, threshold: u64, needed: u32) -> (r: Option<StormReport>)
        requires old(self).spec_consecutive_hot() < u32::MAX,
        ensures
            ({
                let w = if window == 0 { 1 } else { window };
                let o = old(self);
                let closes = o.retired_in_window() >= w;
                &&& r == (if o.storm_fires(window, threshold, needed) { Some(o.storm_report()) } else { None })
                &&& closes ==> final(self).spec_window_start() == o.spec_retired() && final(self).spec_window_traps() == 0
                        && final(self).spec_claims_start() == o.spec_claims()
                &&& !closes ==> final(self).spec_window_start() == o.spec_window_start() && final(self).spec_window_traps() == o.spec_window_traps()
                        && final(self).spec_claims_start() == o.spec_claims_start()
                &&& final(self).spec_consecutive_hot() == (
                        if o.storm_fires(window, threshold, needed) { 0 }
                        else if o.retired_in_window() < w { o.spec_consecutive_hot() }
                        else if o.spec_window_traps() * w > threshold * o.retired_in_window() { (o.spec_consecutive_hot() + 1) as u32 }
                        else { 0 })
                &&& final(self).spec_last_storm() == (if o.storm_fires(window, threshold, needed) { Some(o.storm_report()) } else { o.spec_last_storm() })
                &&& final(self).spec_retired() == o.spec_retired()
                &&& final(self).spec_claims() == o.spec_claims()
                &&& final(self).spec_wfi_reported() == o.spec_wfi_reported()
            }),
    {
        let window = if window == 0 { 1 } else { window };
        let retired_in_window = self.retired.saturating_sub(self.window_start_retired);
        if retired_in_window < window {
            return None;
        }
        let traps = self.window_traps;
        let hot = self.hottest_irq_in_window();
        self.window_start_retired = self.retired;
        self.window_traps = 0;
        self.claims_window_start = self.claims;
        assert((traps as int) * (window as int) <= 0xffff_ffff_ffff_ffff * 0xffff_ffff_ffff_ffff) by (nonlinear_arith)
            requires traps <= 0xffff_ffff_ffff_ffffu64, window <= 0xffff_ffff_ffff_ffffu64;
        assert((threshold as int) * (retired_in_window as int) <= 0xffff_ffff_ffff_ffff * 0xffff_ffff_ffff_ffff) by (nonlinear_arith)
            requires threshold <= 0xffff_ffff_ffff_ffffu64, retired_in_window <= 0xffff_ffff_ffff_ffffu64;
        let hot_window = (traps as u128) * (window as u128) > (threshold as u128) * (retired_in_window as u128);
        if hot_window {
            self.consecutive_hot = self.consecutive_hot + 1;
            if self.consecutive_hot >= needed {
                self.consecutive_hot = 0;
                let report = StormReport { window_traps: traps, window_retired: retired_in_window, hot_irq: hot };
                self.last_storm = Some(report);
                return Some(report);
            }
        } else {
            self.consecutive_hot = 0;
        }
        None
    }

    /// WFI-deadlock watchdog: given that the guest idles on `WFI` and whether any wakeup source
    /// is armed, report a stuck-idle episode once; re-arms when the guest makes progress or a
    /// wakeup is armed.
    pub fn wfi_watchdog(&mut self, idling_on_wfi: bool, any_wakeup_armed: bool) -> (r: Option<String>)
        ensures
            (r is Some) == wfi_fires(old(self).spec_wfi_reported(), idling_on_wfi, any_wakeup_armed),
            r matches Some(m) ==> m@ == wfi_message(old(self).spec_retired(), old(self).spec_wfi())
                && (final(self).spec_last_wfi_report() matches Some(l) && l@ == m@),
            r is None ==> final(self).spec_last_wfi_report() == old(self).spec_last_wfi_report(),
            final(self).spec_wfi_reported() == wfi_reported_after(idling_on_wfi, any_wakeup_armed),
            final(self).spec_retired() == old(self).spec_retired(),
            final(self).spec_wfi() == old(self).spec_wfi(),
            final(self).spec_window_traps() == old(self).spec_window_traps(),
            final(self).spec_consecutive_hot() == old(self).spec_consecutive_hot(),
    {
        if !idling_on_wfi || any_wakeup_armed {
            self.wfi_reported = false;
            return None;
        }
        if self.wfi_reported {
            return None;
        }
        self.wfi_reported = true;
        let mut msg = String::from_str("WFI with no wakeup source armed — the guest will idle forever (no timer deadline, no pending+enabled device interrupt). retired=");
        push_digits(&mut msg, self.retired, 10);
        msg.append(", wfi_count=");
        push_digits(&mut msg, self.wfi, 10);
        self.last_wfi_report = Some(msg.clone());
        Some(msg)
    }
}

/// Whether the watchdog reports: idling on WFI, nothing armed, and not yet reported.
pub open spec fn wfi_fires(reported: bool, idling_on_wfi: bool, any_wakeup_armed: bool) -> bool {
    idling_on_wfi && !any_wakeup_armed && !reported
}

/// Whether an episode counts as reported after a watchdog call with these inputs.
pub open spec fn wfi_reported_after(idling_on_wfi: bool, any_wakeup_armed: bool) -> bool {
    idling_on_wfi && !any_wakeup_armed
}

/// The watchdog reports once per stuck episode: after any call made while stuck, the next
/// stuck call is silent; after a call with progress or an armed wakeup, the next stuck call
/// reports again.
pub proof fn lemma_wfi_reports_once_per_episode(reported: bool)
    ensures
        !wfi_fires(wfi_reported_after(true, false), true, false),
        wfi_fires(wfi_reported_after(true, true), true, false),
        wfi_fires(wfi_reported_after(false, false), true, false),
{
}


/// The ` [index]=count` entries of the non-zero counts among the first `k` of `a`.
pub open spec fn nonzero_list(a: Seq<u64>, k: int) -> Seq<char>
    decreases k,
{
    if k <= 0 {
        Seq::empty()
    } else {
        nonzero_list(a, k - 1) + (if a[k - 1] > 0 {
            " ["@ + digits((k - 1) as nat, 10) + "]="@ + digits(a[k - 1] as nat, 10)
        } else {
            Seq::empty()
        })
    }
}

/// The `--stats` text of these counters.
pub open spec fn dump_text(retired: u64, wfi: u64, exc: Seq<u64>, ints: Seq<u64>, claims: Seq<u64>) -> Seq<char> {
    "=== irq/trap stats ===\nretired="@ + digits(retired as nat, 10) + "  wfi="@ + digits(wfi as nat, 10) + "\n"@
        + "exceptions (scause):"@ + nonzero_list(exc, exc.len() as int)
        + "\ninterrupts (scause):"@ + nonzero_list(ints, ints.len() as int)
        + "\nPLIC claims (irq):"@ + nonzero_list(claims, claims.len() as int)
        + "\n"@
}

fn push_nonzero_list(s: &mut String, a: &[u64])
    ensures final(s)@ == old(s)@ + nonzero_list(a@, a@.len() as int),
{
    proof { reveal_strlit(" ["); reveal_strlit("]="); }
    let mut i: usize = 0;
    while i < a.len()
        invariant i <= a@.len(), s@ == old(s)@ + nonzero_list(a@, i as int),
        decreases a.len() - i,
    {
        let n = a[i];
        if n > 0 {
            s.append(" [");
            push_digits(s, i as u64, 10);
            s.append("]=");
            push_digits(s, n, 10);
        }
        i += 1;
        assert(s@ =~= old(s)@ + nonzero_list(a@, i as int));
    }
}

impl IrqStats {
    /// Human-readable counter dump: totals, then the non-zero exception, interrupt and claim
    /// counters.
    pub fn dump(&self) -> (r: String)
        ensures r@ == dump_text(self.spec_retired(), self.spec_wfi(), self.spec_exc(), self.spec_int(), self.spec_claims()),
    {
        let mut s = String::from_str("=== irq/trap stats ===\nretired=");
        push_digits(&mut s, self.retired, 10);
        s.append("  wfi=");
        push_digits(&mut s, self.wfi, 10);
        s.append("\n");
        s.append("exceptions (scause):");
        push_nonzero_list(&mut s, &self.exc);
        s.append("\ninterrupts (scause):");
        push_nonzero_list(&mut s, &self.int);
        s.append("\nPLIC claims (irq):");
        push_nonzero_list(&mut s, &self.claims);
        s.append("\n");
        s
    }
}

impl Default for IrqStats {
    fn default() -> (r: Self)
        ensures r.spec_retired() == 0, r.spec_wfi() == 0, !r.spec_wfi_reported(), r.spec_last_storm() is None,
    {
        IrqStats::new()
    }
}

} // verus!
