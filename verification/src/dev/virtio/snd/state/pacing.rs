//! Clock pacing of the playback and capture queues: transfer admission and deadlines,
//! lifecycle resynchronisation, missed-period XRUN accounting, ready and released transfers,
//! and the figures each service boundary reports.

use vstd::prelude::*;
use super::{SndState, PendingPcm, PendingCapture, playback_bytes, capture_bytes};
use super::super::pcm::PcmState;
use super::super::wire::{PcmParams, PcmXfer, PcmStatus, SndEvent, PlaybackReport, CaptureReport, sample_rate_of, params_valid_for, u32_at};
use super::super::{SndStatus, AudioCaptureError, PCM_STATUS_SIZE, PCM_XFER_HDR_SIZE};
use super::super::{PCM_FRAME_BYTES, MAX_PENDING_SND_EVENTS, CAPTURE_STREAM_ID, VIRTIO_SND_EVT_PCM_XRUN};
use crate::prof::pause::sat_add;

verus! {

/// `a * b`, saturating at `u64::MAX`.
pub open spec fn sat_mul(a: u64, b: u64) -> u64 {
    if a * b > u64::MAX { u64::MAX } else { (a * b) as u64 }
}

/// Nanoseconds that `frame_count` frames last at `rate` Hz, rounded up; the product saturates.
pub open spec fn frame_duration(frame_count: u64, rate: u32) -> u64 {
    (sat_add(sat_mul(frame_count, 1_000_000_000), (rate - 1) as u64) / (rate as u64)) as u64
}

/// The duration of `frame_count` frames at `sample_rate_hz`, in nanoseconds rounded up.
pub fn frame_duration_ns(frame_count: usize, sample_rate_hz: u32) -> (r: u64)
    requires sample_rate_hz > 0,
    ensures r == frame_duration(frame_count as u64, sample_rate_hz),
{
    let numerator: u64 = match (frame_count as u64).checked_mul(1_000_000_000) {
        Some(v) => v,
        None => u64::MAX,
    };
    numerator.saturating_add((sample_rate_hz as u64).saturating_sub(1)) / (sample_rate_hz as u64)
}

/// The clock time at which the first `n` transfers of durations `durs` have played out when the
/// first one starts at `now` (each step saturating).
pub open spec fn sched_end(now: u64, durs: Seq<u64>, n: int) -> u64
    decreases n,
{
    if n <= 0 { now } else { sat_add(sched_end(now, durs, n - 1), durs[n - 1]) }
}

/// The durations of the queued playback transfers, in queue order.
pub open spec fn playback_durations(q: Seq<PendingPcm>) -> Seq<u64> {
    q.map_values(|t: PendingPcm| t.duration_ns)
}

/// The durations of the queued capture buffers, in queue order.
pub open spec fn capture_durations(q: Seq<PendingCapture>) -> Seq<u64> {
    q.map_values(|t: PendingCapture| t.duration_ns)
}

/// `t` with its deadline replaced.
pub open spec fn pcm_due(t: PendingPcm, deadline_ns: u64) -> PendingPcm {
    PendingPcm { samples: t.samples, sample_rate_hz: t.sample_rate_hz, duration_ns: t.duration_ns, deadline_ns }
}

/// `t` with its deadline replaced.
pub open spec fn capture_due(t: PendingCapture, deadline_ns: u64) -> PendingCapture {
    PendingCapture {
        frame_count: t.frame_count, channels: t.channels, sample_rate_hz: t.sample_rate_hz,
        period_bytes: t.period_bytes, duration_ns: t.duration_ns, deadline_ns,
    }
}

/// The playback queue played back to back from `now`: each transfer is due when it and every
/// transfer before it have played.
pub open spec fn playback_rescheduled(q: Seq<PendingPcm>, now: u64) -> Seq<PendingPcm> {
    Seq::new(q.len(), |i: int| pcm_due(q[i], sched_end(now, playback_durations(q), i + 1)))
}

/// The capture queue filled back to back from `now`.
pub open spec fn capture_rescheduled(q: Seq<PendingCapture>, now: u64) -> Seq<PendingCapture> {
    Seq::new(q.len(), |i: int| capture_due(q[i], sched_end(now, capture_durations(q), i + 1)))
}

/// The playback queue with every deadline parked at `u64::MAX` (never due).
pub open spec fn playback_parked(q: Seq<PendingPcm>) -> Seq<PendingPcm> {
    Seq::new(q.len(), |i: int| pcm_due(q[i], u64::MAX))
}

/// The capture queue with every deadline parked at `u64::MAX`.
pub open spec fn capture_parked(q: Seq<PendingCapture>) -> Seq<PendingCapture> {
    Seq::new(q.len(), |i: int| capture_due(q[i], u64::MAX))
}

/// Reschedule the playback queue back to back from `now_ns`.
fn reschedule_playback(q: &mut Vec<PendingPcm>, now_ns: u64)
    ensures final(q)@ == playback_rescheduled(old(q)@, now_ns),
{
    let ghost q0 = old(q)@;
    let ghost durs = playback_durations(q0);
    let mut deadline = now_ns;
    let mut k: usize = 0;
    while k < q.len()
        invariant
            q@.len() == q0.len(),
            k <= q0.len(),
            durs == playback_durations(q0),
            deadline == sched_end(now_ns, durs, k as int),
            forall|j: int| 0 <= j < k ==> q@[j] == playback_rescheduled(q0, now_ns)[j],
            forall|j: int| k <= j < q0.len() ==> q@[j] == q0[j],
        decreases q0.len() - k,
    {
        let t = q[k];
        deadline = deadline.saturating_add(t.duration_ns);
        q.set(k, PendingPcm { samples: t.samples, sample_rate_hz: t.sample_rate_hz, duration_ns: t.duration_ns, deadline_ns: deadline });
        k += 1;
    }
    assert(q@ =~= playback_rescheduled(q0, now_ns));
}

/// Reschedule the capture queue back to back from `now_ns`.
fn reschedule_capture(q: &mut Vec<PendingCapture>, now_ns: u64)
    ensures final(q)@ == capture_rescheduled(old(q)@, now_ns),
{
    let ghost q0 = old(q)@;
    let ghost durs = capture_durations(q0);
    let mut deadline = now_ns;
    let mut k: usize = 0;
    while k < q.len()
        invariant
            q@.len() == q0.len(),
            k <= q0.len(),
            durs == capture_durations(q0),
            deadline == sched_end(now_ns, durs, k as int),
            forall|j: int| 0 <= j < k ==> q@[j] == capture_rescheduled(q0, now_ns)[j],
            forall|j: int| k <= j < q0.len() ==> q@[j] == q0[j],
        decreases q0.len() - k,
    {
        let t = q[k];
        deadline = deadline.saturating_add(t.duration_ns);
        q.set(k, PendingCapture {
            frame_count: t.frame_count, channels: t.channels, sample_rate_hz: t.sample_rate_hz,
            period_bytes: t.period_bytes, duration_ns: t.duration_ns, deadline_ns: deadline,
        });
        k += 1;
    }
    assert(q@ =~= capture_rescheduled(q0, now_ns));
}

/// Park every playback deadline at `u64::MAX`.
fn park_playback(q: &mut Vec<PendingPcm>)
    ensures final(q)@ == playback_parked(old(q)@),
{
    let ghost q0 = old(q)@;
    let mut k: usize = 0;
    while k < q.len()
        invariant
            q@.len() == q0.len(),
            k <= q0.len(),
            forall|j: int| 0 <= j < k ==> q@[j] == playback_parked(q0)[j],
            forall|j: int| k <= j < q0.len() ==> q@[j] == q0[j],
        decreases q0.len() - k,
    {
        let t = q[k];
        q.set(k, PendingPcm { samples: t.samples, sample_rate_hz: t.sample_rate_hz, duration_ns: t.duration_ns, deadline_ns: u64::MAX });
        k += 1;
    }
    assert(q@ =~= playback_parked(q0));
}

/// Park every capture deadline at `u64::MAX`.
fn park_capture(q: &mut Vec<PendingCapture>)
    ensures final(q)@ == capture_parked(old(q)@),
{
    let ghost q0 = old(q)@;
    let mut k: usize = 0;
    while k < q.len()
        invariant
            q@.len() == q0.len(),
            k <= q0.len(),
            forall|j: int| 0 <= j < k ==> q@[j] == capture_parked(q0)[j],
            forall|j: int| k <= j < q0.len() ==> q@[j] == q0[j],
        decreases q0.len() - k,
    {
        let t = q[k];
        q.set(k, PendingCapture {
            frame_count: t.frame_count, channels: t.channels, sample_rate_hz: t.sample_rate_hz,
            period_bytes: t.period_bytes, duration_ns: t.duration_ns, deadline_ns: u64::MAX,
        });
        k += 1;
    }
    assert(q@ =~= capture_parked(q0));
}

/// `a + b` on `u32`, saturating.
pub open spec fn sat_add32(a: u32, b: int) -> u32 {
    if a + b > u32::MAX { u32::MAX } else { (a + b) as u32 }
}

/// The control plane (streams, capture switch and count, rates, kicks, reset flag and
/// lifecycle epochs) is the same in `a` and `b`.
pub open spec fn same_controls(a: SndState, b: SndState) -> bool {
    &&& a.spec_stream() == b.spec_stream()
    &&& a.spec_capture_stream() == b.spec_capture_stream()
    &&& a.spec_capture_enabled() == b.spec_capture_enabled()
    &&& a.spec_capture_start_count() == b.spec_capture_start_count()
    &&& a.spec_rate_mask() == b.spec_rate_mask()
    &&& a.spec_kicked() == b.spec_kicked()
    &&& a.spec_reset_pending() == b.spec_reset_pending()
    &&& a.spec_epoch() == b.spec_epoch()
    &&& a.spec_capture_epoch() == b.spec_capture_epoch()
}

/// The playback pacing state (queue, observed epoch, release flag, XRUN schedule) is the same.
pub open spec fn same_playback_side(a: SndState, b: SndState) -> bool {
    &&& a.spec_playback() == b.spec_playback()
    &&& a.spec_playback_observed() == b.spec_playback_observed()
    &&& a.spec_playback_release() == b.spec_playback_release()
    &&& a.spec_next_xrun() == b.spec_next_xrun()
    &&& a.spec_period_duration() == b.spec_period_duration()
}

/// The capture pacing state (queue, observed epoch, release flag) is the same.
pub open spec fn same_capture_side(a: SndState, b: SndState) -> bool {
    &&& a.spec_capture() == b.spec_capture()
    &&& a.spec_capture_observed() == b.spec_capture_observed()
    &&& a.spec_capture_release() == b.spec_capture_release()
}

/// The event queue and its dropped-XRUN count are the same.
pub open spec fn same_events(a: SndState, b: SndState) -> bool {
    &&& a.spec_events() == b.spec_events()
    &&& a.spec_dropped() == b.spec_dropped()
}

/// The period of a running, configured stream at a supported rate, in nanoseconds.
pub open spec fn running_period(st: super::super::pcm::PcmStream) -> Option<u64> {
    if st.spec_state() == PcmState::Running {
        match st.spec_params() {
            Some(p) => match sample_rate_of(p.rate) {
                Some(rate) => Some(frame_duration((p.period_bytes / PCM_FRAME_BYTES) as u64, rate)),
                None => None,
            },
            None => None,
        }
    } else {
        None
    }
}

/// When the next output XRUN is due: one period after the last queued transfer, or one period
/// from `now` when nothing is queued.
pub open spec fn xrun_due(q: Seq<PendingPcm>, now: u64, period: u64) -> u64 {
    if q.len() > 0 { sat_add(q.last().deadline_ns, period) } else { sat_add(now, period) }
}

/// The number of whole periods elapsed since the XRUN deadline `deadline`, counting the one
/// that ended at `deadline` (saturating).
pub open spec fn missed_periods(deadline: u64, now: u64, period: u64) -> u64 {
    sat_add(((now - deadline) as u64 / period) as u64, 1)
}

/// Whether the missed-period accounting acts: a running output stream with an empty queue, a
/// scheduled XRUN deadline that has passed, and a known period.
pub open spec fn xrun_overdue(s: SndState, now: u64) -> bool {
    &&& s.spec_stream().spec_state() == PcmState::Running
    &&& s.spec_playback().len() == 0
    &&& s.spec_next_xrun() is Some
    &&& s.spec_period_duration() != 0
    &&& now >= s.spec_next_xrun().unwrap()
}

/// The number of XRUN events the event queue can still take.
pub open spec fn event_room(s: SndState) -> u64 {
    if s.spec_events().len() >= MAX_PENDING_SND_EVENTS { 0 } else { (MAX_PENDING_SND_EVENTS - s.spec_events().len()) as u64 }
}

/// `n` output XRUN notifications.
pub open spec fn output_xruns(n: nat) -> Seq<SndEvent> {
    Seq::new(n, |i: int| SndEvent { event: VIRTIO_SND_EVT_PCM_XRUN, data: 0 })
}

/// Every playback transfer is due no later than the ones queued after it.
pub open spec fn playback_in_order(q: Seq<PendingPcm>) -> bool {
    forall|i: int, j: int| 0 <= i <= j < q.len() ==> q[i].deadline_ns <= q[j].deadline_ns
}

/// Every capture buffer is due no later than the ones held after it.
pub open spec fn capture_in_order(q: Seq<PendingCapture>) -> bool {
    forall|i: int, j: int| 0 <= i <= j < q.len() ==> q[i].deadline_ns <= q[j].deadline_ns
}

/// Playing transfers back to back never moves the clock backwards: the schedule after `i`
/// transfers is no later than after `j >= i` of them.
pub proof fn lemma_schedule_monotone(now: u64, durs: Seq<u64>, i: int, j: int)
    requires 0 <= i <= j,
    ensures sched_end(now, durs, i) <= sched_end(now, durs, j),
    decreases j - i,
{
    if i < j {
        lemma_schedule_monotone(now, durs, i, j - 1);
    }
}

/// A rescheduled playback queue is due in queue order, its first transfer one duration after
/// the clock time it was rescheduled at.
pub proof fn lemma_playback_reschedule_in_order(q: Seq<PendingPcm>, now: u64)
    ensures
        playback_in_order(playback_rescheduled(q, now)),
        q.len() > 0 ==> playback_rescheduled(q, now)[0].deadline_ns == sat_add(now, q[0].duration_ns),
{
    let r = playback_rescheduled(q, now);
    assert forall|i: int, j: int| 0 <= i <= j < r.len() implies r[i].deadline_ns <= r[j].deadline_ns by {
        lemma_schedule_monotone(now, playback_durations(q), i + 1, j + 1);
    }
    if q.len() > 0 {
        assert(playback_durations(q)[0] == q[0].duration_ns);
        assert(sched_end(now, playback_durations(q), 1) == sat_add(sched_end(now, playback_durations(q), 0), playback_durations(q)[0]));
    }
}

/// A rescheduled capture queue is due in queue order, its first buffer one duration after the
/// clock time it was rescheduled at.
pub proof fn lemma_capture_reschedule_in_order(q: Seq<PendingCapture>, now: u64)
    ensures
        capture_in_order(capture_rescheduled(q, now)),
        q.len() > 0 ==> capture_rescheduled(q, now)[0].deadline_ns == sat_add(now, q[0].duration_ns),
{
    let r = capture_rescheduled(q, now);
    assert forall|i: int, j: int| 0 <= i <= j < r.len() implies r[i].deadline_ns <= r[j].deadline_ns by {
        lemma_schedule_monotone(now, capture_durations(q), i + 1, j + 1);
    }
    if q.len() > 0 {
        assert(capture_durations(q)[0] == q[0].duration_ns);
        assert(sched_end(now, capture_durations(q), 1) == sat_add(sched_end(now, capture_durations(q), 0), capture_durations(q)[0]));
    }
}

/// Admitting a transfer at the deadline [`SndState::decode_transfer`] gives it keeps an ordered
/// playback queue in order, and taking the ready head keeps it in order too.
pub proof fn lemma_playback_admission_in_order(q: Seq<PendingPcm>, t: PendingPcm, now: u64)
    requires
        playback_in_order(q),
        t.deadline_ns == next_playback_deadline(q, now, t.duration_ns),
    ensures
        playback_in_order(q.push(t)),
        q.len() > 0 ==> playback_in_order(q.drop_first()),
{
    let r = q.push(t);
    assert forall|i: int, j: int| 0 <= i <= j < r.len() implies r[i].deadline_ns <= r[j].deadline_ns by {
        if j == q.len() && i < j {
            assert(q[i].deadline_ns <= q[q.len() - 1].deadline_ns);
            assert(r[i] == q[i] && r[j] == t);
        }
    }
    if q.len() > 0 {
        let d = q.drop_first();
        assert forall|i: int, j: int| 0 <= i <= j < d.len() implies d[i].deadline_ns <= d[j].deadline_ns by {
            assert(d[i] == q[i + 1] && d[j] == q[j + 1]);
        }
    }
}

/// Admitting a buffer at the deadline [`SndState::decode_capture_transfer`] gives it keeps an
/// ordered capture queue in order, and taking the ready head keeps it in order too.
pub proof fn lemma_capture_admission_in_order(q: Seq<PendingCapture>, t: PendingCapture, now: u64)
    requires
        capture_in_order(q),
        t.deadline_ns == next_capture_deadline(q, now, t.duration_ns),
    ensures
        capture_in_order(q.push(t)),
        q.len() > 0 ==> capture_in_order(q.drop_first()),
{
    let r = q.push(t);
    assert forall|i: int, j: int| 0 <= i <= j < r.len() implies r[i].deadline_ns <= r[j].deadline_ns by {
        if j == q.len() && i < j {
            assert(q[i].deadline_ns <= q[q.len() - 1].deadline_ns);
            assert(r[i] == q[i] && r[j] == t);
        }
    }
    if q.len() > 0 {
        let d = q.drop_first();
        assert forall|i: int, j: int| 0 <= i <= j < d.len() implies d[i].deadline_ns <= d[j].deadline_ns by {
            assert(d[i] == q[i + 1] && d[j] == q[j + 1]);
        }
    }
}

impl SndState {
    /// Follow the output stream's lifecycle once per lifecycle change: while it runs, queued
    /// transfers are rescheduled back to back from `now_ns` and the next XRUN is due one period
    /// after them; in every other state the queue is parked (never due) and no XRUN is scheduled.
    /// Nothing changes when the current lifecycle epoch was already observed.
    pub fn sync_playback_lifecycle(&mut self, now_ns: u64)
        ensures
            same_controls(*final(self), *old(self)),
            same_capture_side(*final(self), *old(self)),
            same_events(*final(self), *old(self)),
            old(self).spec_playback_observed() == old(self).spec_epoch() ==> same_playback_side(*final(self), *old(self)),
            old(self).spec_playback_observed() != old(self).spec_epoch() ==> {
                &&& final(self).spec_playback_observed() == old(self).spec_epoch()
                &&& final(self).spec_playback_release() == old(self).spec_playback_release()
                &&& match running_period(old(self).spec_stream()) {
                    Some(period) => {
                        &&& final(self).spec_period_duration() == period
                        &&& final(self).spec_playback() == playback_rescheduled(old(self).spec_playback(), now_ns)
                        &&& final(self).spec_next_xrun() == Some(xrun_due(final(self).spec_playback(), now_ns, period))
                    },
                    None => {
                        &&& final(self).spec_period_duration() == old(self).spec_period_duration()
                        &&& final(self).spec_playback() == playback_parked(old(self).spec_playback())
                        &&& final(self).spec_next_xrun() is None
                    },
                }
            },
    {
        if self.playback_observed_epoch == self.lifecycle_epoch {
            return;
        }
        self.playback_observed_epoch = self.lifecycle_epoch;
        let period: Option<u64> = if matches!(self.stream.state(), PcmState::Running) {
            match self.stream.params() {
                Some(p) => match p.sample_rate_hz() {
                    Some(rate) => Some(frame_duration_ns((p.period_bytes / PCM_FRAME_BYTES) as usize, rate)),
                    None => None,
                },
                None => None,
            }
        } else {
            None
        };
        match period {
            Some(period_duration_ns) => {
                self.period_duration_ns = period_duration_ns;
                reschedule_playback(&mut self.playback, now_ns);
                let n = self.playback.len();
                let next = if n > 0 {
                    self.playback[n - 1].deadline_ns.saturating_add(period_duration_ns)
                } else {
                    now_ns.saturating_add(period_duration_ns)
                };
                self.next_xrun_ns = Some(next);
            },
            None => {
                park_playback(&mut self.playback);
                self.next_xrun_ns = None;
            },
        }
    }

    /// Follow the input stream's lifecycle once per lifecycle change: while it runs, held
    /// buffers are rescheduled back to back from `now_ns`; otherwise they are parked.
    pub fn sync_capture_lifecycle(&mut self, now_ns: u64)
        ensures
            same_controls(*final(self), *old(self)),
            same_playback_side(*final(self), *old(self)),
            same_events(*final(self), *old(self)),
            final(self).spec_capture_release() == old(self).spec_capture_release(),
            old(self).spec_capture_observed() == old(self).spec_capture_epoch() ==> same_capture_side(*final(self), *old(self)),
            old(self).spec_capture_observed() != old(self).spec_capture_epoch() ==> {
                &&& final(self).spec_capture_observed() == old(self).spec_capture_epoch()
                &&& final(self).spec_capture() == (if old(self).spec_capture_stream().spec_state() == PcmState::Running {
                    capture_rescheduled(old(self).spec_capture(), now_ns)
                } else {
                    capture_parked(old(self).spec_capture())
                })
            },
    {
        if self.capture_observed_epoch == self.capture_lifecycle_epoch {
            return;
        }
        self.capture_observed_epoch = self.capture_lifecycle_epoch;
        if matches!(self.capture_stream.state(), PcmState::Running) {
            reschedule_capture(&mut self.capture, now_ns);
        } else {
            park_capture(&mut self.capture);
        }
    }

    /// Record the period and schedule the next output XRUN: one period after the last queued
    /// transfer, or, with nothing queued and no XRUN scheduled yet, one period from `now_ns`.
    pub fn refresh_xrun_schedule(&mut self, now_ns: u64, period_duration_ns: u64)
        ensures
            same_controls(*final(self), *old(self)),
            same_capture_side(*final(self), *old(self)),
            same_events(*final(self), *old(self)),
            final(self).spec_playback() == old(self).spec_playback(),
            final(self).spec_playback_observed() == old(self).spec_playback_observed(),
            final(self).spec_playback_release() == old(self).spec_playback_release(),
            final(self).spec_period_duration() == period_duration_ns,
            final(self).spec_next_xrun() == (if old(self).spec_playback().len() > 0 || old(self).spec_next_xrun() is None {
                Some(xrun_due(old(self).spec_playback(), now_ns, period_duration_ns))
            } else {
                old(self).spec_next_xrun()
            }),
    {
        self.period_duration_ns = period_duration_ns;
        let n = self.playback.len();
        if n > 0 {
            self.next_xrun_ns = Some(self.playback[n - 1].deadline_ns.saturating_add(period_duration_ns));
        } else if self.next_xrun_ns.is_none() {
            self.next_xrun_ns = Some(now_ns.saturating_add(period_duration_ns));
        }
    }

    /// Account for output periods that ended with nothing queued: each missed period since the
    /// scheduled XRUN deadline yields one XRUN event while the event queue has room and counts as
    /// dropped beyond it, and the next XRUN moves past the missed periods. Acts only when
    /// [`xrun_overdue`] holds; otherwise nothing changes.
    pub fn enqueue_missed_xruns(&mut self, now_ns: u64, report: &mut PlaybackReport)
        ensures
            same_controls(*final(self), *old(self)),
            same_capture_side(*final(self), *old(self)),
            final(self).spec_playback() == old(self).spec_playback(),
            final(self).spec_playback_observed() == old(self).spec_playback_observed(),
            final(self).spec_playback_release() == old(self).spec_playback_release(),
            final(self).spec_period_duration() == old(self).spec_period_duration(),
            !xrun_overdue(*old(self), now_ns) ==> same_events(*final(self), *old(self))
                && final(self).spec_next_xrun() == old(self).spec_next_xrun()
                && *final(report) == *old(report),
            old(self).spec_events().len() <= MAX_PENDING_SND_EVENTS ==> final(self).spec_events().len() <= MAX_PENDING_SND_EVENTS,
            xrun_overdue(*old(self), now_ns) ==> ({
                let deadline = old(self).spec_next_xrun().unwrap();
                let period = old(self).spec_period_duration();
                let missed = missed_periods(deadline, now_ns, period);
                let emit = if missed <= event_room(*old(self)) { missed } else { event_room(*old(self)) };
                &&& emit <= event_room(*old(self))
                &&& final(self).spec_events() == old(self).spec_events() + output_xruns(emit as nat)
                &&& final(self).spec_dropped() == sat_add(old(self).spec_dropped(), (missed - emit) as u64)
                &&& final(self).spec_next_xrun() == Some(sat_add(deadline, sat_mul(period, missed)))
                &&& *final(report) == (PlaybackReport { xrun_events: sat_add32(old(report).xrun_events, emit as int), ..*old(report) })
            }),
    {
        if !matches!(self.stream.state(), PcmState::Running) || self.playback.len() != 0 {
            return;
        }
        let deadline_ns = match self.next_xrun_ns {
            Some(d) => d,
            None => return,
        };
        let period_duration_ns = self.period_duration_ns;
        if period_duration_ns == 0 || now_ns < deadline_ns {
            return;
        }
        let missed = ((now_ns - deadline_ns) / period_duration_ns).saturating_add(1);
        let available: u64 = if self.events.len() >= MAX_PENDING_SND_EVENTS { 0 } else { (MAX_PENDING_SND_EVENTS - self.events.len()) as u64 };
        let emit = if missed <= available { missed } else { available };
        let mut events: Vec<SndEvent> = Vec::new();
        std::mem::swap(&mut events, &mut self.events);
        let ghost ev0 = events@;
        let mut i: u64 = 0;
        while i < emit
            invariant
                i <= emit, emit <= available, available <= MAX_PENDING_SND_EVENTS,
                events@ == ev0 + output_xruns(i as nat),
            decreases emit - i,
        {
            events.push(SndEvent::pcm_xrun(0));
            proof { assert(events@ =~= ev0 + output_xruns((i + 1) as nat)); }
            i += 1;
        }
        std::mem::swap(&mut events, &mut self.events);
        self.dropped_xruns = self.dropped_xruns.saturating_add(missed - emit);
        report.xrun_events = report.xrun_events.saturating_add(emit as u32);
        let advance: u64 = match period_duration_ns.checked_mul(missed) {
            Some(v) => v,
            None => u64::MAX,
        };
        self.next_xrun_ns = Some(deadline_ns.saturating_add(advance));
    }
}

/// Whether an output transfer is well formed: room for the status tail, a readable part of a
/// stream-0 header plus exactly one period of whole stereo S16 frames, no longer than the buffer.
pub open spec fn transfer_accepted(readable: Seq<u8>, writable_len: u64, p: PcmParams) -> bool {
    &&& writable_len >= PCM_STATUS_SIZE
    &&& PCM_XFER_HDR_SIZE <= readable.len() <= p.buffer_bytes + PCM_XFER_HDR_SIZE
    &&& u32_at(readable, 0) == 0
    &&& readable.len() - PCM_XFER_HDR_SIZE == p.period_bytes
    &&& p.period_bytes != 0
    &&& p.period_bytes % PCM_FRAME_BYTES == 0
}

/// Whether an input buffer is well formed: exactly a stream-1 header readable, valid input
/// parameters, and room for one period of whole frames before the status tail.
pub open spec fn capture_accepted(readable: Seq<u8>, writable_len: u64, p: PcmParams) -> bool {
    let frame_bytes = (p.channels as u32 * 2) as u32;
    &&& readable.len() == PCM_XFER_HDR_SIZE
    &&& u32_at(readable, 0) == CAPTURE_STREAM_ID
    &&& frame_bytes != 0
    &&& params_valid_for(p, CAPTURE_STREAM_ID, 1, 2)
    &&& (if writable_len >= PCM_STATUS_SIZE { writable_len - PCM_STATUS_SIZE } else { 0 }) >= p.period_bytes
    &&& p.period_bytes % frame_bytes == 0
}

/// When a new playback transfer is due: right after the last queued one, or one duration from
/// `now` when nothing is queued.
pub open spec fn next_playback_deadline(q: Seq<PendingPcm>, now: u64, duration: u64) -> u64 {
    if q.len() > 0 { sat_add(q.last().deadline_ns, q.last().duration_ns) } else { sat_add(now, duration) }
}

/// When a new capture buffer is due: right after the last held one, or one duration from `now`.
pub open spec fn next_capture_deadline(q: Seq<PendingCapture>, now: u64, duration: u64) -> u64 {
    if q.len() > 0 { sat_add(q.last().deadline_ns, q.last().duration_ns) } else { sat_add(now, duration) }
}

/// The status, frame count and XRUN flag of a capture completion for what the source returned.
pub open spec fn capture_outcome(t: PendingCapture, pulled: Result<usize, AudioCaptureError>) -> (SndStatus, u64, bool) {
    match pulled {
        Ok(count) => if count <= t.frame_count {
            (SndStatus::Success, count as u64, count != t.frame_count)
        } else {
            (SndStatus::IoErr, 0, true)
        },
        Err(_) => (SndStatus::IoErr, 0, true),
    }
}

impl SndState {
    /// Admit an output transfer whose readable bytes are `readable` and whose writable part is
    /// `writable_len` bytes: a well-formed one ([`transfer_accepted`]) becomes a pending transfer
    /// of one period at `sample_rate_hz`, due after everything already queued; `None` marks a
    /// malformed transfer, which is completed with `IO_ERR`.
    pub fn decode_transfer(&self, readable: &[u8], writable_len: u64, params: PcmParams, sample_rate_hz: u32, now_ns: u64) -> (r: Option<PendingPcm>)
        requires sample_rate_hz > 0,
        ensures
            r == (if transfer_accepted(readable@, writable_len, params) {
                let duration = frame_duration((params.period_bytes / PCM_FRAME_BYTES) as u64, sample_rate_hz);
                Some(PendingPcm {
                    samples: params.period_bytes / 2,
                    sample_rate_hz,
                    duration_ns: duration,
                    deadline_ns: next_playback_deadline(self.spec_playback(), now_ns, duration),
                })
            } else {
                None
            }),
    {
        if writable_len < PCM_STATUS_SIZE as u64 {
            return None;
        }
        let readable_len = readable.len();
        if readable_len < PCM_XFER_HDR_SIZE || readable_len as u64 > params.buffer_bytes as u64 + PCM_XFER_HDR_SIZE as u64 {
            return None;
        }
        let xfer = PcmXfer::from_bytes(readable)?;
        let pcm_bytes = (readable_len - PCM_XFER_HDR_SIZE) as u32;
        if xfer.stream_id != 0 || pcm_bytes == 0 || pcm_bytes % PCM_FRAME_BYTES != 0 || pcm_bytes != params.period_bytes {
            return None;
        }
        let samples = pcm_bytes / 2;
        let frame_count = samples / 2;
        assert(frame_count == params.period_bytes / PCM_FRAME_BYTES);
        let duration_ns = frame_duration_ns(frame_count as usize, sample_rate_hz);
        let n = self.playback.len();
        let deadline_ns = if n > 0 {
            let last = self.playback[n - 1];
            last.deadline_ns.saturating_add(last.duration_ns)
        } else {
            now_ns.saturating_add(duration_ns)
        };
        Some(PendingPcm { samples, sample_rate_hz, duration_ns, deadline_ns })
    }

    /// Admit an input buffer whose readable bytes are `readable` and whose writable part is
    /// `writable_len` bytes: a well-formed one ([`capture_accepted`]) is held for one period of
    /// `params` at `sample_rate_hz`, due after everything already held; `None` marks a malformed
    /// buffer, which is completed with `IO_ERR`.
    pub fn decode_capture_transfer(&self, readable: &[u8], writable_len: u64, params: PcmParams, sample_rate_hz: u32, now_ns: u64) -> (r: Option<PendingCapture>)
        requires sample_rate_hz > 0,
        ensures
            r == (if capture_accepted(readable@, writable_len, params) {
                let frame_count = params.period_bytes / (params.channels as u32 * 2) as u32;
                let duration = frame_duration(frame_count as u64, sample_rate_hz);
                Some(PendingCapture {
                    frame_count,
                    channels: params.channels,
                    sample_rate_hz,
                    period_bytes: params.period_bytes,
                    duration_ns: duration,
                    deadline_ns: next_capture_deadline(self.spec_capture(), now_ns, duration),
                })
            } else {
                None
            }),
    {
        if readable.len() != PCM_XFER_HDR_SIZE {
            return None;
        }
        let xfer = PcmXfer::from_bytes(readable)?;
        let frame_bytes = params.channels as u32 * 2;
        let data_bytes = writable_len.saturating_sub(PCM_STATUS_SIZE as u64);
        if xfer.stream_id != CAPTURE_STREAM_ID || frame_bytes == 0 || !params.is_valid_for(CAPTURE_STREAM_ID, 1, 2)
            || data_bytes < params.period_bytes as u64 || params.period_bytes % frame_bytes != 0 {
            return None;
        }
        let frame_count = params.period_bytes / frame_bytes;
        let duration_ns = frame_duration_ns(frame_count as usize, sample_rate_hz);
        let n = self.capture.len();
        let deadline_ns = if n > 0 {
            let last = self.capture[n - 1];
            last.deadline_ns.saturating_add(last.duration_ns)
        } else {
            now_ns.saturating_add(duration_ns)
        };
        Some(PendingCapture {
            frame_count,
            channels: params.channels,
            sample_rate_hz,
            period_bytes: params.period_bytes,
            duration_ns,
            deadline_ns,
        })
    }

    /// Take the oldest playback transfer if its deadline has been reached.
    pub fn take_ready_playback(&mut self, now_ns: u64) -> (r: Option<PendingPcm>)
        ensures
            same_controls(*final(self), *old(self)),
            same_capture_side(*final(self), *old(self)),
            same_events(*final(self), *old(self)),
            final(self).spec_playback_observed() == old(self).spec_playback_observed(),
            final(self).spec_playback_release() == old(self).spec_playback_release(),
            final(self).spec_next_xrun() == old(self).spec_next_xrun(),
            final(self).spec_period_duration() == old(self).spec_period_duration(),
            r == (if old(self).spec_playback().len() > 0 && old(self).spec_playback()[0].deadline_ns <= now_ns {
                Some(old(self).spec_playback()[0])
            } else {
                None
            }),
            r is Some ==> final(self).spec_playback() == old(self).spec_playback().drop_first(),
            r is None ==> final(self).spec_playback() == old(self).spec_playback(),
    {
        if self.playback.len() == 0 || self.playback[0].deadline_ns > now_ns {
            return None;
        }
        let t = self.playback.remove(0);
        assert(self.playback@ =~= old(self).spec_playback().drop_first());
        Some(t)
    }

    /// Take the oldest capture buffer if its deadline has been reached.
    pub fn take_ready_capture(&mut self, now_ns: u64) -> (r: Option<PendingCapture>)
        ensures
            same_controls(*final(self), *old(self)),
            same_playback_side(*final(self), *old(self)),
            same_events(*final(self), *old(self)),
            final(self).spec_capture_observed() == old(self).spec_capture_observed(),
            final(self).spec_capture_release() == old(self).spec_capture_release(),
            r == (if old(self).spec_capture().len() > 0 && old(self).spec_capture()[0].deadline_ns <= now_ns {
                Some(old(self).spec_capture()[0])
            } else {
                None
            }),
            r is Some ==> final(self).spec_capture() == old(self).spec_capture().drop_first(),
            r is None ==> final(self).spec_capture() == old(self).spec_capture(),
    {
        if self.capture.len() == 0 || self.capture[0].deadline_ns > now_ns {
            return None;
        }
        let t = self.capture.remove(0);
        assert(self.capture@ =~= old(self).spec_capture().drop_first());
        Some(t)
    }

    /// After an output RELEASE, hand back every queued transfer (each is completed with `IO_ERR`)
    /// and count them as completed errors; without a pending release nothing happens.
    pub fn flush_released(&mut self, report: &mut PlaybackReport) -> (r: Vec<PendingPcm>)
        ensures
            same_controls(*final(self), *old(self)),
            same_capture_side(*final(self), *old(self)),
            same_events(*final(self), *old(self)),
            final(self).spec_playback_observed() == old(self).spec_playback_observed(),
            final(self).spec_next_xrun() == old(self).spec_next_xrun(),
            final(self).spec_period_duration() == old(self).spec_period_duration(),
            !old(self).spec_playback_release() ==> r@.len() == 0 && same_playback_side(*final(self), *old(self))
                && *final(report) == *old(report),
            old(self).spec_playback_release() ==> {
                &&& r@ == old(self).spec_playback()
                &&& final(self).spec_playback().len() == 0
                &&& !final(self).spec_playback_release()
                &&& *final(report) == (PlaybackReport {
                    completed: sat_add32(old(report).completed, r@.len() as int),
                    errors: sat_add32(old(report).errors, r@.len() as int),
                    ..*old(report)
                })
            },
    {
        let mut drained: Vec<PendingPcm> = Vec::new();
        if !self.playback_release_pending {
            return drained;
        }
        std::mem::swap(&mut drained, &mut self.playback);
        self.playback_release_pending = false;
        let n = drained.len() as u64;
        report.completed = if n > (u32::MAX - report.completed) as u64 { u32::MAX } else { report.completed + n as u32 };
        report.errors = if n > (u32::MAX - report.errors) as u64 { u32::MAX } else { report.errors + n as u32 };
        drained
    }

    /// After an input RELEASE, hand back every held buffer (each is completed with `IO_ERR`) and
    /// count them as completed errors; without a pending release nothing happens.
    pub fn flush_capture_released(&mut self, report: &mut CaptureReport) -> (r: Vec<PendingCapture>)
        ensures
            same_controls(*final(self), *old(self)),
            same_playback_side(*final(self), *old(self)),
            same_events(*final(self), *old(self)),
            final(self).spec_capture_observed() == old(self).spec_capture_observed(),
            !old(self).spec_capture_release() ==> r@.len() == 0 && same_capture_side(*final(self), *old(self))
                && *final(report) == *old(report),
            old(self).spec_capture_release() ==> {
                &&& r@ == old(self).spec_capture()
                &&& final(self).spec_capture().len() == 0
                &&& !final(self).spec_capture_release()
                &&& *final(report) == (CaptureReport {
                    completed: sat_add32(old(report).completed, r@.len() as int),
                    errors: sat_add32(old(report).errors, r@.len() as int),
                    ..*old(report)
                })
            },
    {
        let mut drained: Vec<PendingCapture> = Vec::new();
        if !self.capture_release_pending {
            return drained;
        }
        std::mem::swap(&mut drained, &mut self.capture);
        self.capture_release_pending = false;
        let n = drained.len() as u64;
        report.completed = if n > (u32::MAX - report.completed) as u64 { u32::MAX } else { report.completed + n as u32 };
        report.errors = if n > (u32::MAX - report.errors) as u64 { u32::MAX } else { report.errors + n as u32 };
        drained
    }

    /// Record the completion of a playback transfer taken from the queue: `pushed` says whether
    /// the sink accepted its frames. Returns the status record for its guest status tail (OK, or
    /// `IO_ERR` on a sink failure, with the bytes still queued as latency) and counts the
    /// completion, the pushed stereo frames or the error.
    pub fn playback_completion(&self, t: PendingPcm, pushed: bool, report: &mut PlaybackReport) -> (r: PcmStatus)
        ensures
            r == (PcmStatus {
                status: if pushed { SndStatus::Success } else { SndStatus::IoErr },
                latency_bytes: playback_bytes(self.spec_playback()),
            }),
            *final(report) == (PlaybackReport {
                completed: sat_add32(old(report).completed, 1),
                errors: if pushed { old(report).errors } else { sat_add32(old(report).errors, 1) },
                frames_pushed: if pushed { sat_add(old(report).frames_pushed, (t.samples / 2) as u64) } else { old(report).frames_pushed },
                ..*old(report)
            }),
    {
        let status = if pushed {
            report.frames_pushed = report.frames_pushed.saturating_add((t.samples / 2) as u64);
            SndStatus::Success
        } else {
            report.errors = report.errors.saturating_add(1);
            SndStatus::IoErr
        };
        let latency_bytes = self.playback_pending_bytes();
        report.completed = report.completed.saturating_add(1);
        PcmStatus { status, latency_bytes }
    }

    /// Record the completion of a capture buffer taken from the queue, given what the source
    /// returned for it ([`capture_outcome`]): a short or failed pull queues an input XRUN event
    /// (or counts it dropped), a failure is an error, and the pulled frames are counted. Returns
    /// the status record for the buffer's status tail, with the bytes still held as latency.
    pub fn capture_completion(&mut self, t: PendingCapture, pulled: Result<usize, AudioCaptureError>, report: &mut CaptureReport) -> (r: PcmStatus)
        ensures
            same_controls(*final(self), *old(self)),
            same_playback_side(*final(self), *old(self)),
            same_capture_side(*final(self), *old(self)),
            ({
                let (status, frames, xrun) = capture_outcome(t, pulled);
                let queued = xrun && old(self).spec_events().len() < MAX_PENDING_SND_EVENTS;
                &&& r == (PcmStatus { status, latency_bytes: capture_bytes(old(self).spec_capture()) })
                &&& final(self).spec_events() == (if queued {
                    old(self).spec_events().push(SndEvent { event: VIRTIO_SND_EVT_PCM_XRUN, data: CAPTURE_STREAM_ID })
                } else {
                    old(self).spec_events()
                })
                &&& final(self).spec_dropped() == (if xrun && !queued { sat_add(old(self).spec_dropped(), 1) } else { old(self).spec_dropped() })
                &&& *final(report) == (CaptureReport {
                    completed: sat_add32(old(report).completed, 1),
                    errors: if status == SndStatus::Success { old(report).errors } else { sat_add32(old(report).errors, 1) },
                    frames_pulled: sat_add(old(report).frames_pulled, frames),
                    xrun_events: if queued { sat_add32(old(report).xrun_events, 1) } else { old(report).xrun_events },
                    ..*old(report)
                })
            }),
    {
        let (status, pulled_frames, xrun) = match pulled {
            Ok(count) => if count <= t.frame_count as usize {
                (SndStatus::Success, count as u64, count != t.frame_count as usize)
            } else {
                (SndStatus::IoErr, 0u64, true)
            },
            Err(_) => (SndStatus::IoErr, 0u64, true),
        };
        if xrun {
            if self.enqueue_xrun_event(CAPTURE_STREAM_ID) {
                report.xrun_events = report.xrun_events.saturating_add(1);
            }
        }
        if !matches!(status, SndStatus::Success) {
            report.errors = report.errors.saturating_add(1);
        }
        let latency_bytes = self.capture_pending_bytes();
        report.completed = report.completed.saturating_add(1);
        report.frames_pulled = report.frames_pulled.saturating_add(pulled_frames);
        PcmStatus { status, latency_bytes }
    }

    /// Close a playback service boundary: the report carries the bytes still queued (also as
    /// latency) and the first queued deadline.
    pub fn finish_report(&self, report: PlaybackReport) -> (r: PlaybackReport)
        ensures
            r == (PlaybackReport {
                pending_bytes: playback_bytes(self.spec_playback()),
                latency_bytes: playback_bytes(self.spec_playback()),
                next_deadline_ns: if self.spec_playback().len() > 0 { Some(self.spec_playback()[0].deadline_ns) } else { None },
                ..report
            }),
    {
        let mut report = report;
        report.pending_bytes = self.playback_pending_bytes();
        report.latency_bytes = report.pending_bytes;
        report.next_deadline_ns = if self.playback.len() > 0 { Some(self.playback[0].deadline_ns) } else { None };
        report
    }

    /// Close a capture service boundary: the report carries the bytes still held and the first
    /// held deadline.
    pub fn finish_capture_report(&self, report: CaptureReport) -> (r: CaptureReport)
        ensures
            r == (CaptureReport {
                pending_bytes: capture_bytes(self.spec_capture()),
                next_deadline_ns: if self.spec_capture().len() > 0 { Some(self.spec_capture()[0].deadline_ns) } else { None },
                ..report
            }),
    {
        let mut report = report;
        report.pending_bytes = self.capture_pending_bytes();
        report.next_deadline_ns = if self.capture.len() > 0 { Some(self.capture[0].deadline_ns) } else { None };
        report
    }
}

} // verus!
