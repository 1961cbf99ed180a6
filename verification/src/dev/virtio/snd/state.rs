//! The shared sound state: the output and optional input PCM streams, the control-plane
//! dispatcher, queue-kick bookkeeping, the paced transfer queues' metadata and the bounded
//! asynchronous event queue.

use vstd::prelude::*;
use super::{
    SndStatus, status_code, CAPTURE_STREAM_ID, NUM_QUEUES, MAX_PENDING_SND_EVENTS, CONTROL_QUEUE, EVENT_QUEUE, TX_QUEUE, RX_QUEUE,
    PCM_STREAM_COUNT, PCM_STREAM_COUNT_WITH_CAPTURE, SUPPORTED_PCM_RATE_MASK,
    SUPPORTED_CAPTURE_PCM_RATE_MASK, VIRTIO_SND_R_JACK_INFO, VIRTIO_SND_R_PCM_INFO,
    VIRTIO_SND_R_CHMAP_INFO, VIRTIO_SND_R_PCM_SET_PARAMS, VIRTIO_SND_R_PCM_PREPARE,
    VIRTIO_SND_R_PCM_START, VIRTIO_SND_R_PCM_STOP, VIRTIO_SND_R_PCM_RELEASE,
    VIRTIO_SND_PCM_RATE_44100, VIRTIO_SND_PCM_RATE_48000,
};
use super::snapshot::{
    SndSnapshotError, encode_error, snapshot_bytes, events_bytes, kicked_bytes, bool_word, u16_bytes,
    push_u16, push_u32, push_u64, push_bool_word, push_stream, validate_rate_mask, validate_stream,
    validate_pending_metadata, validate_event, MAGIC, VERSION, event_ok, period_of, first_bad_event,
    header_a, with_header_b, decode, decode_error, frame_ok, snapshot_ok, stream_at, events_at, SndRestoreReport, u16_at,
};
use super::pcm::{PcmState, PcmControl, PcmStream, oracle_status, next_state, set_params_accepted, control_of_code};
use super::service::{ServicePlan, plan_of, service_plan};
use super::wire::{
    u32_bytes, u64_bytes, u32_at, read_u32, QueryInfo, JackInfo, PcmInfo, ChmapInfo, PcmParams, SndEvent,
};

pub mod pacing;

verus! {

/// A transfer held in the playback pacing queue (its guest buffers are not part of this state).
#[derive(Debug, Clone, Copy, PartialEq, Eq)]
pub struct PendingPcm {
    /// Interleaved samples carried by the transfer.
    pub samples: u32,
    pub sample_rate_hz: u32,
    pub duration_ns: u64,
    pub deadline_ns: u64,
}

/// A receive buffer held in the capture pacing queue.
#[derive(Debug, Clone, Copy, PartialEq, Eq)]
pub struct PendingCapture {
    pub frame_count: u32,
    pub channels: u8,
    pub sample_rate_hz: u32,
    pub period_bytes: u32,
    pub duration_ns: u64,
    pub deadline_ns: u64,
}

/// The control response for `status` followed by `payload`.
pub open spec fn response_bytes(status: SndStatus, payload: Seq<u8>) -> Seq<u8> {
    u32_bytes(status_code(status)) + payload
}

/// Whether `req` is the one accepted single-item query for `code`: exactly 16 bytes, start 0,
/// count 1, item size `item_size`.
pub open spec fn query_valid(req: Seq<u8>, code: u32, item_size: u32) -> bool {
    &&& req.len() == 16
    &&& u32_at(req, 0) == code
    &&& u32_at(req, 4) == 0
    &&& u32_at(req, 8) == 1
    &&& u32_at(req, 12) == item_size
}

/// Whether `req` is an acceptable PCM_INFO query when `stream_count` streams exist.
pub open spec fn pcm_info_valid(req: Seq<u8>, stream_count: u32) -> bool {
    &&& req.len() == 16
    &&& u32_at(req, 0) == VIRTIO_SND_R_PCM_INFO
    &&& u32_at(req, 12) == 32
    &&& u32_at(req, 8) != 0
    &&& u32_at(req, 4) < stream_count
    &&& u32_at(req, 8) <= stream_count - u32_at(req, 4)
}

/// The PCM_INFO records of streams `start .. start + count`.
pub open spec fn pcm_info_payload(start: int, count: int, rate_mask: u64) -> Seq<u8>
    decreases count,
{
    if count <= 0 {
        Seq::empty()
    } else {
        let id = start + count - 1;
        let info = if id == CAPTURE_STREAM_ID {
            PcmInfo { hda_fn_nid: 0, features: super::VIRTIO_SND_PCM_F_EVT_XRUNS, formats: 0x20, rates: SUPPORTED_CAPTURE_PCM_RATE_MASK,
                direction: super::VIRTIO_SND_D_INPUT, channels_min: 1, channels_max: 2 }
        } else {
            PcmInfo { hda_fn_nid: 0, features: super::VIRTIO_SND_PCM_F_EVT_XRUNS, formats: 0x20, rates: rate_mask,
                direction: super::VIRTIO_SND_D_OUTPUT, channels_min: 2, channels_max: 2 }
        };
        pcm_info_payload(start, count - 1, rate_mask) + info.spec_bytes()
    }
}

/// `x + 1` modulo 2^64.
pub open spec fn wrap_inc(x: u64) -> u64 {
    if x == u64::MAX { 0 } else { (x + 1) as u64 }
}

/// Shared sound state between the transport-facing half and the queue services.
pub struct SndState {
    pub stream: PcmStream,
    capture_stream: PcmStream,
    capture_enabled: bool,
    capture_start_count: u64,
    pcm_rate_mask: u64,
    kicked: [bool; 4],
    reset_pending: bool,
    lifecycle_epoch: u64,
    capture_lifecycle_epoch: u64,
    playback: Vec<PendingPcm>,
    playback_observed_epoch: u64,
    playback_release_pending: bool,
    next_xrun_ns: Option<u64>,
    period_duration_ns: u64,
    capture: Vec<PendingCapture>,
    capture_observed_epoch: u64,
    capture_release_pending: bool,
    events: Vec<SndEvent>,
    dropped_xruns: u64,
}

impl SndState {
    pub closed spec fn spec_stream(&self) -> PcmStream { self.stream }
    pub closed spec fn spec_capture_stream(&self) -> PcmStream { self.capture_stream }
    pub closed spec fn spec_capture_enabled(&self) -> bool { self.capture_enabled }
    pub closed spec fn spec_capture_start_count(&self) -> u64 { self.capture_start_count }
    pub closed spec fn spec_rate_mask(&self) -> u64 { self.pcm_rate_mask }
    pub closed spec fn spec_kicked(&self) -> Seq<bool> { self.kicked@ }
    pub closed spec fn spec_reset_pending(&self) -> bool { self.reset_pending }
    pub closed spec fn spec_epoch(&self) -> u64 { self.lifecycle_epoch }
    pub closed spec fn spec_capture_epoch(&self) -> u64 { self.capture_lifecycle_epoch }
    pub closed spec fn spec_playback(&self) -> Seq<PendingPcm> { self.playback@ }
    pub closed spec fn spec_capture(&self) -> Seq<PendingCapture> { self.capture@ }
    pub closed spec fn spec_playback_release(&self) -> bool { self.playback_release_pending }
    pub closed spec fn spec_capture_release(&self) -> bool { self.capture_release_pending }
    pub closed spec fn spec_playback_observed(&self) -> u64 { self.playback_observed_epoch }
    pub closed spec fn spec_capture_observed(&self) -> u64 { self.capture_observed_epoch }
    pub closed spec fn spec_next_xrun(&self) -> Option<u64> { self.next_xrun_ns }
    pub closed spec fn spec_period_duration(&self) -> u64 { self.period_duration_ns }
    pub closed spec fn spec_events(&self) -> Seq<SndEvent> { self.events@ }
    pub closed spec fn spec_dropped(&self) -> u64 { self.dropped_xruns }

    /// `b` is `a` but for its kick flags and reset marker.
    pub open spec fn same_but_flags(a: SndState, b: SndState) -> bool {
        &&& b.spec_stream() == a.spec_stream() && b.spec_capture_stream() == a.spec_capture_stream()
        &&& b.spec_capture_enabled() == a.spec_capture_enabled()
        &&& b.spec_capture_start_count() == a.spec_capture_start_count()
        &&& b.spec_rate_mask() == a.spec_rate_mask()
        &&& b.spec_epoch() == a.spec_epoch() && b.spec_capture_epoch() == a.spec_capture_epoch()
        &&& b.spec_playback() == a.spec_playback() && b.spec_capture() == a.spec_capture()
        &&& b.spec_playback_release() == a.spec_playback_release() && b.spec_capture_release() == a.spec_capture_release()
        &&& b.spec_playback_observed() == a.spec_playback_observed() && b.spec_capture_observed() == a.spec_capture_observed()
        &&& b.spec_next_xrun() == a.spec_next_xrun() && b.spec_period_duration() == a.spec_period_duration()
        &&& b.spec_events() == a.spec_events() && b.spec_dropped() == a.spec_dropped()
    }

    /// The number of PCM streams exposed through the configuration.
    pub open spec fn spec_stream_count(&self) -> u32 {
        if self.spec_capture_enabled() { PCM_STREAM_COUNT_WITH_CAPTURE } else { PCM_STREAM_COUNT }
    }

    /// The status a control request is answered with.
    pub open spec fn control_status(&self, req: Seq<u8>) -> SndStatus {
        let code = u32_at(req, 0);
        if req.len() < 4 {
            SndStatus::BadMsg
        } else if code == VIRTIO_SND_R_JACK_INFO {
            if query_valid(req, code, 24) { SndStatus::Success } else { SndStatus::BadMsg }
        } else if code == VIRTIO_SND_R_CHMAP_INFO {
            if query_valid(req, code, 24) { SndStatus::Success } else { SndStatus::BadMsg }
        } else if code == VIRTIO_SND_R_PCM_INFO {
            if pcm_info_valid(req, self.spec_stream_count()) { SndStatus::Success } else { SndStatus::BadMsg }
        } else if code == VIRTIO_SND_R_PCM_SET_PARAMS {
            self.set_params_status(req)
        } else if code == VIRTIO_SND_R_PCM_PREPARE || code == VIRTIO_SND_R_PCM_START
            || code == VIRTIO_SND_R_PCM_STOP || code == VIRTIO_SND_R_PCM_RELEASE {
            self.lifecycle_status(req, code)
        } else {
            SndStatus::NotSupp
        }
    }

    /// The parameters a SET_PARAMS request carries.
    pub open spec fn req_params(req: Seq<u8>) -> PcmParams {
        PcmParams {
            stream_id: u32_at(req, 4), buffer_bytes: u32_at(req, 8), period_bytes: u32_at(req, 12),
            features: u32_at(req, 16), channels: req[20], format: req[21], rate: req[22], padding: req[23],
        }
    }

    /// The status of a SET_PARAMS request: exactly 24 bytes, a known stream with an empty
    /// pacing queue, and parameters the stream accepts.
    pub open spec fn set_params_status(&self, req: Seq<u8>) -> SndStatus {
        let p = Self::req_params(req);
        if req.len() != 24 {
            SndStatus::BadMsg
        } else if p.stream_id == CAPTURE_STREAM_ID {
            if !self.spec_capture_enabled() || self.spec_capture().len() != 0 {
                SndStatus::BadMsg
            } else if set_params_accepted(self.spec_capture_stream().spec_state(), p, SUPPORTED_CAPTURE_PCM_RATE_MASK, CAPTURE_STREAM_ID, 1, 2) {
                SndStatus::Success
            } else {
                SndStatus::BadMsg
            }
        } else if p.stream_id == 0 {
            if self.spec_playback().len() != 0 {
                SndStatus::BadMsg
            } else if set_params_accepted(self.spec_stream().spec_state(), p, self.spec_rate_mask(), 0, 2, 2) {
                SndStatus::Success
            } else {
                SndStatus::BadMsg
            }
        } else {
            SndStatus::BadMsg
        }
    }

    /// The status of a PREPARE/START/STOP/RELEASE request: exactly 8 bytes naming the output
    /// stream or the enabled input stream, answered by the stream's oracle.
    pub open spec fn lifecycle_status(&self, req: Seq<u8>, code: u32) -> SndStatus {
        let id = u32_at(req, 4);
        let control = control_of_code(code)->0;
        if req.len() != 8 {
            SndStatus::BadMsg
        } else if id != 0 && (id != CAPTURE_STREAM_ID || !self.spec_capture_enabled()) {
            SndStatus::BadMsg
        } else if id == CAPTURE_STREAM_ID {
            oracle_status(self.spec_capture_stream().spec_state(), control)
        } else {
            oracle_status(self.spec_stream().spec_state(), control)
        }
    }

    /// The payload following the status of a successful query.
    pub open spec fn control_payload(&self, req: Seq<u8>) -> Seq<u8> {
        let code = u32_at(req, 0);
        if self.control_status(req) != SndStatus::Success {
            Seq::empty()
        } else if code == VIRTIO_SND_R_JACK_INFO {
            JackInfo { hda_fn_nid: 0, features: 0, hda_reg_defconf: 0, hda_reg_caps: 0, connected: 1 }.spec_bytes()
        } else if code == VIRTIO_SND_R_CHMAP_INFO {
            u32_bytes(0) + seq![super::VIRTIO_SND_D_OUTPUT, 2u8] + seq![super::VIRTIO_SND_CHMAP_FL, super::VIRTIO_SND_CHMAP_FR] + Seq::new(16, |i: int| 0u8)
        } else if code == VIRTIO_SND_R_PCM_INFO {
            pcm_info_payload(u32_at(req, 4) as int, u32_at(req, 8) as int, self.spec_rate_mask())
        } else {
            Seq::empty()
        }
    }
}


impl SndState {
    /// Every field of `b` equals `a`'s, except the output stream, its epoch and release flag.
    pub open spec fn same_except_output(a: SndState, b: SndState) -> bool {
        &&& b.spec_capture_stream() == a.spec_capture_stream()
        &&& b.spec_capture_enabled() == a.spec_capture_enabled()
        &&& b.spec_capture_start_count() == a.spec_capture_start_count()
        &&& b.spec_rate_mask() == a.spec_rate_mask()
        &&& b.spec_kicked() == a.spec_kicked()
        &&& b.spec_reset_pending() == a.spec_reset_pending()
        &&& b.spec_capture_epoch() == a.spec_capture_epoch()
        &&& b.spec_playback() == a.spec_playback()
        &&& b.spec_capture() == a.spec_capture()
        &&& b.spec_capture_release() == a.spec_capture_release()
        &&& b.spec_events() == a.spec_events()
        &&& b.spec_dropped() == a.spec_dropped()
    }

    /// Every field of `b` equals `a`'s, except the input stream, its epoch, start count and
    /// release flag.
    pub open spec fn same_except_capture(a: SndState, b: SndState) -> bool {
        &&& b.spec_stream() == a.spec_stream()
        &&& b.spec_capture_enabled() == a.spec_capture_enabled()
        &&& b.spec_rate_mask() == a.spec_rate_mask()
        &&& b.spec_kicked() == a.spec_kicked()
        &&& b.spec_reset_pending() == a.spec_reset_pending()
        &&& b.spec_epoch() == a.spec_epoch()
        &&& b.spec_playback() == a.spec_playback()
        &&& b.spec_capture() == a.spec_capture()
        &&& b.spec_playback_release() == a.spec_playback_release()
        &&& b.spec_events() == a.spec_events()
        &&& b.spec_dropped() == a.spec_dropped()
    }

    /// The state after an accepted SET_PARAMS or lifecycle request: the addressed stream moves,
    /// its lifecycle epoch advances (wrapping), an accepted input START is counted, and an
    /// accepted RELEASE marks the stream's queue for release. Nothing else changes.
    pub open spec fn accepted_effect(a: SndState, b: SndState, req: Seq<u8>) -> bool {
        let code = u32_at(req, 0);
        let id = u32_at(req, 4);
        let control = control_of_code(code)->0;
        if id == CAPTURE_STREAM_ID {
            &&& Self::same_except_capture(a, b)
            &&& b.spec_capture_epoch() == wrap_inc(a.spec_capture_epoch())
            &&& b.spec_capture_start_count() == (if control == PcmControl::Start { wrap_inc(a.spec_capture_start_count()) } else { a.spec_capture_start_count() })
            &&& b.spec_capture_release() == (control == PcmControl::Release || a.spec_capture_release())
            &&& if control == PcmControl::SetParams {
                b.spec_capture_stream().spec_state() == PcmState::SetParams && b.spec_capture_stream().spec_params() == Some(Self::req_params(req))
            } else {
                b.spec_capture_stream().spec_state() == next_state(a.spec_capture_stream().spec_state(), control)
                    && b.spec_capture_stream().spec_params() == (if control == PcmControl::Release { None } else { a.spec_capture_stream().spec_params() })
            }
        } else {
            &&& Self::same_except_output(a, b)
            &&& b.spec_epoch() == wrap_inc(a.spec_epoch())
            &&& b.spec_playback_release() == (control == PcmControl::Release || a.spec_playback_release())
            &&& if control == PcmControl::SetParams {
                b.spec_stream().spec_state() == PcmState::SetParams && b.spec_stream().spec_params() == Some(Self::req_params(req))
            } else {
                b.spec_stream().spec_state() == next_state(a.spec_stream().spec_state(), control)
                    && b.spec_stream().spec_params() == (if control == PcmControl::Release { None } else { a.spec_stream().spec_params() })
            }
        }
    }

    /// Whether `code` is a query (answered without changing state).
    pub open spec fn is_query(code: u32) -> bool {
        code == VIRTIO_SND_R_JACK_INFO || code == VIRTIO_SND_R_CHMAP_INFO || code == VIRTIO_SND_R_PCM_INFO
    }

    /// A reset sound state: both streams released, output rates 44.1/48 kHz, no input stream.
    pub fn new() -> (r: Self)
        ensures
            r.spec_stream().spec_state() == PcmState::Released, r.spec_stream().spec_params() is None,
            r.spec_capture_stream().spec_state() == PcmState::Released, r.spec_capture_stream().spec_params() is None,
            !r.spec_capture_enabled(), r.spec_capture_start_count() == 0,
            r.spec_rate_mask() == SUPPORTED_PCM_RATE_MASK,
            r.spec_kicked() == seq![false, false, false, false], !r.spec_reset_pending(),
            r.spec_epoch() == 0, r.spec_capture_epoch() == 0,
            r.spec_playback().len() == 0, r.spec_capture().len() == 0, r.spec_events().len() == 0,
            r.spec_dropped() == 0, !r.spec_playback_release(), !r.spec_capture_release(),
            r.spec_playback_observed() == 0, r.spec_capture_observed() == 0,
            r.spec_next_xrun() is None, r.spec_period_duration() == 0,
    {
        let r = SndState {
            stream: PcmStream::new(),
            capture_stream: PcmStream::new(),
            capture_enabled: false,
            capture_start_count: 0,
            pcm_rate_mask: SUPPORTED_PCM_RATE_MASK,
            kicked: [false; 4],
            reset_pending: false,
            lifecycle_epoch: 0,
            capture_lifecycle_epoch: 0,
            playback: Vec::new(),
            playback_observed_epoch: 0,
            playback_release_pending: false,
            next_xrun_ns: None,
            period_duration_ns: 0,
            capture: Vec::new(),
            capture_observed_epoch: 0,
            capture_release_pending: false,
            events: Vec::new(),
            dropped_xruns: 0,
        };
        assert(r.kicked@ =~= seq![false, false, false, false]);
        r
    }

    /// Enable or disable the optional input stream. A change resets the input stream, its start
    /// count and queue, and advances its lifecycle epoch; setting the current value does nothing.
    pub fn set_capture_enabled(&mut self, enabled: bool)
        ensures
            old(self).spec_capture_enabled() == enabled ==> *final(self) == *old(self),
            old(self).spec_capture_enabled() != enabled ==> {
                &&& final(self).spec_capture_enabled() == enabled
                &&& final(self).spec_capture_stream().spec_state() == PcmState::Released
                &&& final(self).spec_capture_stream().spec_params() is None
                &&& final(self).spec_capture_start_count() == 0
                &&& final(self).spec_capture().len() == 0
                &&& final(self).spec_capture_epoch() == wrap_inc(old(self).spec_capture_epoch())
                &&& final(self).spec_stream() == old(self).spec_stream()
                &&& final(self).spec_events() == old(self).spec_events()
                &&& final(self).spec_playback() == old(self).spec_playback()
                &&& final(self).spec_rate_mask() == old(self).spec_rate_mask()
                &&& final(self).spec_epoch() == old(self).spec_epoch()
            },
    {
        if self.capture_enabled == enabled {
            return;
        }
        self.capture_enabled = enabled;
        self.capture_stream.reset();
        self.capture_start_count = 0;
        self.capture = Vec::new();
        self.capture_observed_epoch = 0;
        self.capture_release_pending = false;
        self.capture_lifecycle_epoch = self.capture_lifecycle_epoch.wrapping_add(1);
    }

    /// Current lifecycle state of the output stream.
    pub fn stream_state(&self) -> (r: PcmState)
        ensures r == self.spec_stream().spec_state(),
    {
        self.stream.state()
    }

    /// Current parameters of the output stream.
    pub fn stream_params(&self) -> (r: Option<PcmParams>)
        ensures r == self.spec_stream().spec_params(),
    {
        self.stream.params()
    }

    /// Whether the optional input stream is guest-visible.
    pub fn capture_enabled(&self) -> (r: bool)
        ensures r == self.spec_capture_enabled(),
    {
        self.capture_enabled
    }

    /// Number of PCM streams currently exposed through the device configuration.
    pub fn pcm_stream_count(&self) -> (r: u32)
        ensures r == self.spec_stream_count(),
    {
        if self.capture_enabled { PCM_STREAM_COUNT_WITH_CAPTURE } else { PCM_STREAM_COUNT }
    }

    /// Current lifecycle state of the optional input stream.
    pub fn capture_stream_state(&self) -> (r: PcmState)
        ensures r == self.spec_capture_stream().spec_state(),
    {
        self.capture_stream.state()
    }

    /// Current parameters of the optional input stream.
    pub fn capture_stream_params(&self) -> (r: Option<PcmParams>)
        ensures r == self.spec_capture_stream().spec_params(),
    {
        self.capture_stream.params()
    }

    /// Number of input buffers held for clock-paced completion.
    pub fn capture_pending_count(&self) -> (r: usize)
        ensures r == self.spec_capture().len(),
    {
        self.capture.len()
    }

    /// Count of successful input PCM_START requests in this device lifetime.
    pub fn capture_start_count(&self) -> (r: u64)
        ensures r == self.spec_capture_start_count(),
    {
        self.capture_start_count
    }

    /// Monotonic lifecycle epoch for the optional input stream.
    pub fn capture_lifecycle_epoch(&self) -> (r: u64)
        ensures r == self.spec_capture_epoch(),
    {
        self.capture_lifecycle_epoch
    }

    /// Queue one XRUN notification for `stream_id` within the event budget; past the budget the
    /// notification is dropped and counted. Returns whether it was queued.
    pub fn enqueue_xrun_event(&mut self, stream_id: u32) -> (queued: bool)
        ensures
            queued == (old(self).spec_events().len() < MAX_PENDING_SND_EVENTS),
            queued ==> final(self).spec_events() == old(self).spec_events().push(SndEvent { event: super::VIRTIO_SND_EVT_PCM_XRUN, data: stream_id })
                && final(self).spec_dropped() == old(self).spec_dropped(),
            !queued ==> final(self).spec_events() == old(self).spec_events()
                && final(self).spec_dropped() == (if old(self).spec_dropped() == u64::MAX { u64::MAX } else { (old(self).spec_dropped() + 1) as u64 }),
            pacing::same_controls(*final(self), *old(self)),
            pacing::same_playback_side(*final(self), *old(self)),
            pacing::same_capture_side(*final(self), *old(self)),
    {
        if self.events.len() < MAX_PENDING_SND_EVENTS {
            self.events.push(SndEvent::pcm_xrun(stream_id));
            true
        } else {
            self.dropped_xruns = self.dropped_xruns.saturating_add(1);
            false
        }
    }

    /// Queue one input XRUN notification for a host lifecycle failure.
    pub fn notify_capture_xrun(&mut self)
        ensures
            old(self).spec_events().len() < MAX_PENDING_SND_EVENTS ==> final(self).spec_events()
                == old(self).spec_events().push(SndEvent { event: super::VIRTIO_SND_EVT_PCM_XRUN, data: CAPTURE_STREAM_ID }),
            old(self).spec_events().len() >= MAX_PENDING_SND_EVENTS ==> final(self).spec_events() == old(self).spec_events(),
    {
        self.enqueue_xrun_event(CAPTURE_STREAM_ID);
    }

    /// Restrict the output capability to the host sink's rate: 44100 or 48000 Hz succeed and
    /// narrow the rate mask to that one rate; any other rate fails and changes nothing.
    pub fn set_output_sample_rate(&mut self, sample_rate_hz: u32) -> (r: bool)
        ensures
            r == (sample_rate_hz == 44_100 || sample_rate_hz == 48_000),
            sample_rate_hz == 44_100 ==> final(self).spec_rate_mask() == 0x40,
            sample_rate_hz == 48_000 ==> final(self).spec_rate_mask() == 0x80,
            !r ==> *final(self) == *old(self),
            final(self).spec_stream() == old(self).spec_stream(),
            final(self).spec_capture_stream() == old(self).spec_capture_stream(),
            final(self).spec_capture_enabled() == old(self).spec_capture_enabled(),
    {
        let rate: u8 = if sample_rate_hz == 44_100 {
            VIRTIO_SND_PCM_RATE_44100
        } else if sample_rate_hz == 48_000 {
            VIRTIO_SND_PCM_RATE_48000
        } else {
            return false;
        };
        self.pcm_rate_mask = 1u64 << rate;
        assert(1u64 << 6u8 == 0x40 && 1u64 << 7u8 == 0x80) by (bit_vector);
        true
    }
}


/// A control response: the status code followed by `payload`.
pub fn response(status: SndStatus, payload: &[u8]) -> (r: Vec<u8>)
    ensures r@ == response_bytes(status, payload@),
{
    let code = status.code();
    let mut out: Vec<u8> = Vec::new();
    out.push((code & 0xff) as u8);
    out.push(((code >> 8u32) & 0xff) as u8);
    out.push(((code >> 16u32) & 0xff) as u8);
    out.push(((code >> 24u32) & 0xff) as u8);
    let mut k: usize = 0;
    while k < payload.len()
        invariant
            k <= payload@.len(),
            out@ == u32_bytes(code) + payload@.subrange(0, k as int),
        decreases payload.len() - k,
    {
        out.push(payload[k]);
        k += 1;
        assert(out@ =~= u32_bytes(code) + payload@.subrange(0, k as int));
    }
    assert(payload@.subrange(0, payload@.len() as int) =~= payload@);
    out
}

/// Append every byte of `src` to `out`.
fn extend_from(out: &mut Vec<u8>, src: &[u8])
    ensures final(out)@ == old(out)@ + src@,
{
    let mut k: usize = 0;
    while k < src.len()
        invariant
            k <= src@.len(),
            out@ == old(out)@ + src@.subrange(0, k as int),
        decreases src.len() - k,
    {
        out.push(src[k]);
        k += 1;
        assert(out@ =~= old(out)@ + src@.subrange(0, k as int));
    }
    assert(src@.subrange(0, src@.len() as int) =~= src@);
}

impl SndState {
    fn handle_query(&self, request: &[u8], code: u32, item_size: u32, payload: &[u8]) -> (r: Vec<u8>)
        ensures
            r@ == (if query_valid(request@, code, item_size) {
                response_bytes(SndStatus::Success, payload@)
            } else {
                response_bytes(SndStatus::BadMsg, Seq::empty())
            }),
    {
        let valid = request.len() == 16 && match QueryInfo::from_bytes(request) {
            Some(q) => q.code == code && q.start_id == 0 && q.count == 1 && q.size == item_size,
            None => false,
        };
        if valid {
            response(SndStatus::Success, payload)
        } else {
            let empty: [u8; 0] = [];
            let r = response(SndStatus::BadMsg, &empty);
            assert(empty@ =~= Seq::<u8>::empty());
            r
        }
    }

    fn handle_pcm_info(&self, request: &[u8]) -> (r: Vec<u8>)
        ensures
            r@ == (if pcm_info_valid(request@, self.spec_stream_count()) {
                response_bytes(SndStatus::Success, pcm_info_payload(u32_at(request@, 4) as int, u32_at(request@, 8) as int, self.spec_rate_mask()))
            } else {
                response_bytes(SndStatus::BadMsg, Seq::empty())
            }),
    {
        let empty: [u8; 0] = [];
        assert(empty@ =~= Seq::<u8>::empty());
        let query = match QueryInfo::from_bytes(request) {
            Some(q) => q,
            None => return response(SndStatus::BadMsg, &empty),
        };
        let stream_count = self.pcm_stream_count();
        let valid = request.len() == 16
            && query.code == VIRTIO_SND_R_PCM_INFO
            && query.size == 32
            && query.count != 0
            && query.start_id < stream_count
            && query.count <= stream_count - query.start_id;
        if !valid {
            return response(SndStatus::BadMsg, &empty);
        }
        let mut payload: Vec<u8> = Vec::new();
        let end = query.start_id + query.count;
        let mut id = query.start_id;
        while id < end
            invariant
                query.start_id <= id <= end, end == query.start_id + query.count, end <= 2,
                payload@ == pcm_info_payload(query.start_id as int, id - query.start_id, self.spec_rate_mask()),
            decreases end - id,
        {
            let info = if id == CAPTURE_STREAM_ID {
                PcmInfo::input()
            } else {
                PcmInfo::output_with_rates(self.pcm_rate_mask)
            };
            let bytes = info.to_bytes();
            extend_from(&mut payload, &bytes);
            id += 1;
        }
        response(SndStatus::Success, payload.as_slice())
    }

    /// Apply a SET_PARAMS (with parameters) or lifecycle request to stream `stream_id`.
    fn apply_stream_control(&mut self, stream_id: u32, control: PcmControl, params: Option<PcmParams>) -> (r: SndStatus)
        requires
            stream_id == 0 || stream_id == CAPTURE_STREAM_ID,
            control == PcmControl::SetParams <==> params is Some,
            control != PcmControl::Info,
        ensures
            stream_id == CAPTURE_STREAM_ID && !old(self).spec_capture_enabled() ==> r == SndStatus::BadMsg && *final(self) == *old(self),
            stream_id == CAPTURE_STREAM_ID && old(self).spec_capture_enabled() ==> r == (match params {
                Some(p) => if set_params_accepted(old(self).spec_capture_stream().spec_state(), p, SUPPORTED_CAPTURE_PCM_RATE_MASK, CAPTURE_STREAM_ID, 1, 2) { SndStatus::Success } else { SndStatus::BadMsg },
                None => oracle_status(old(self).spec_capture_stream().spec_state(), control),
            }),
            stream_id == 0 ==> r == (match params {
                Some(p) => if set_params_accepted(old(self).spec_stream().spec_state(), p, old(self).spec_rate_mask(), 0, 2, 2) { SndStatus::Success } else { SndStatus::BadMsg },
                None => oracle_status(old(self).spec_stream().spec_state(), control),
            }),
            r != SndStatus::Success ==> *final(self) == *old(self),
            r == SndStatus::Success && stream_id == CAPTURE_STREAM_ID ==> {
                &&& Self::same_except_capture(*old(self), *final(self))
                &&& final(self).spec_capture_epoch() == wrap_inc(old(self).spec_capture_epoch())
                &&& final(self).spec_capture_start_count() == (if control == PcmControl::Start { wrap_inc(old(self).spec_capture_start_count()) } else { old(self).spec_capture_start_count() })
                &&& final(self).spec_capture_release() == (control == PcmControl::Release || old(self).spec_capture_release())
                &&& match params {
                    Some(p) => final(self).spec_capture_stream().spec_state() == PcmState::SetParams && final(self).spec_capture_stream().spec_params() == Some(p),
                    None => final(self).spec_capture_stream().spec_state() == next_state(old(self).spec_capture_stream().spec_state(), control)
                        && final(self).spec_capture_stream().spec_params() == (if control == PcmControl::Release { None } else { old(self).spec_capture_stream().spec_params() }),
                }
            },
            r == SndStatus::Success && stream_id == 0 ==> {
                &&& Self::same_except_output(*old(self), *final(self))
                &&& final(self).spec_epoch() == wrap_inc(old(self).spec_epoch())
                &&& final(self).spec_playback_release() == (control == PcmControl::Release || old(self).spec_playback_release())
                &&& match params {
                    Some(p) => final(self).spec_stream().spec_state() == PcmState::SetParams && final(self).spec_stream().spec_params() == Some(p),
                    None => final(self).spec_stream().spec_state() == next_state(old(self).spec_stream().spec_state(), control)
                        && final(self).spec_stream().spec_params() == (if control == PcmControl::Release { None } else { old(self).spec_stream().spec_params() }),
                }
            },
    {
        let capture = stream_id == CAPTURE_STREAM_ID;
        if capture && !self.capture_enabled {
            return SndStatus::BadMsg;
        }
        let status = if capture {
            match params {
                Some(p) => self.capture_stream.set_params_with_profile(p, SUPPORTED_CAPTURE_PCM_RATE_MASK, CAPTURE_STREAM_ID, 1, 2),
                None => self.capture_stream.apply(control),
            }
        } else {
            match params {
                Some(p) => self.stream.set_params_with_rate_mask(p, self.pcm_rate_mask),
                None => self.stream.apply(control),
            }
        };
        if matches!(status, SndStatus::Success) {
            if capture {
                if matches!(control, PcmControl::Start) {
                    self.capture_start_count = self.capture_start_count.wrapping_add(1);
                }
                self.capture_lifecycle_epoch = self.capture_lifecycle_epoch.wrapping_add(1);
                if matches!(control, PcmControl::Release) {
                    self.capture_release_pending = true;
                }
            } else {
                self.lifecycle_epoch = self.lifecycle_epoch.wrapping_add(1);
                if matches!(control, PcmControl::Release) {
                    self.playback_release_pending = true;
                }
            }
        }
        status
    }
}


impl SndState {
    fn handle_pcm_lifecycle(&mut self, request: &[u8], code: u32) -> (r: Vec<u8>)
        requires
            code == VIRTIO_SND_R_PCM_PREPARE || code == VIRTIO_SND_R_PCM_START
                || code == VIRTIO_SND_R_PCM_STOP || code == VIRTIO_SND_R_PCM_RELEASE,
            request@.len() >= 4 ==> u32_at(request@, 0) == code,
        ensures
            r@ == response_bytes(old(self).lifecycle_status(request@, code), Seq::empty()),
            old(self).lifecycle_status(request@, code) != SndStatus::Success ==> *final(self) == *old(self),
            old(self).lifecycle_status(request@, code) == SndStatus::Success ==> Self::accepted_effect(*old(self), *final(self), request@),
    {
        let empty: [u8; 0] = [];
        assert(empty@ =~= Seq::<u8>::empty());
        if request.len() != 8 {
            return response(SndStatus::BadMsg, &empty);
        }
        match read_u32(request, 0) {
            Some(c) => if c != code {
                return response(SndStatus::BadMsg, &empty);
            },
            None => return response(SndStatus::BadMsg, &empty),
        }
        let stream_id = match read_u32(request, 4) {
            Some(v) => v,
            None => return response(SndStatus::BadMsg, &empty),
        };
        if stream_id != 0 && (stream_id != CAPTURE_STREAM_ID || !self.capture_enabled) {
            return response(SndStatus::BadMsg, &empty);
        }
        let control = match PcmControl::from_code(code) {
            Some(c) => c,
            None => return response(SndStatus::NotSupp, &empty),
        };
        let status = self.apply_stream_control(stream_id, control, None);
        response(status, &empty)
    }

    /// Dispatch one control request and return the status header plus any info payload.
    ///
    /// Queries (JACK_INFO, CHMAP_INFO, PCM_INFO) answer without changing state; SET_PARAMS and
    /// the lifecycle requests change the addressed stream only when accepted; unknown codes and
    /// JACK_REMAP are `NOT_SUPP`; a request shorter than a code is `BAD_MSG`.
    pub fn handle_control(&mut self, request: &[u8]) -> (r: Vec<u8>)
        ensures
            r@ == response_bytes(old(self).control_status(request@), old(self).control_payload(request@)),
            old(self).control_status(request@) != SndStatus::Success || Self::is_query(u32_at(request@, 0)) ==> *final(self) == *old(self),
            old(self).control_status(request@) == SndStatus::Success && !Self::is_query(u32_at(request@, 0)) ==> Self::accepted_effect(*old(self), *final(self), request@),
    {
        let empty: [u8; 0] = [];
        assert(empty@ =~= Seq::<u8>::empty());
        let code = match read_u32(request, 0) {
            Some(c) => c,
            None => return response(SndStatus::BadMsg, &empty),
        };
        if code == VIRTIO_SND_R_JACK_INFO {
            let bytes = JackInfo::output().to_bytes();
            self.handle_query(request, VIRTIO_SND_R_JACK_INFO, 24, &bytes)
        } else if code == VIRTIO_SND_R_PCM_INFO {
            self.handle_pcm_info(request)
        } else if code == VIRTIO_SND_R_CHMAP_INFO {
            let bytes = ChmapInfo::output().to_bytes();
            assert(bytes@ =~= u32_bytes(0) + seq![super::VIRTIO_SND_D_OUTPUT, 2u8] + seq![super::VIRTIO_SND_CHMAP_FL, super::VIRTIO_SND_CHMAP_FR] + Seq::new(16, |i: int| 0u8));
            self.handle_query(request, VIRTIO_SND_R_CHMAP_INFO, 24, &bytes)
        } else if code == VIRTIO_SND_R_PCM_SET_PARAMS {
            if request.len() != 24 {
                return response(SndStatus::BadMsg, &empty);
            }
            let params = match PcmParams::from_bytes(request) {
                Some(p) => p,
                None => return response(SndStatus::BadMsg, &empty),
            };
            if params.stream_id == CAPTURE_STREAM_ID {
                if !self.capture_enabled || self.capture.len() != 0 {
                    return response(SndStatus::BadMsg, &empty);
                }
                let st = self.apply_stream_control(CAPTURE_STREAM_ID, PcmControl::SetParams, Some(params));
                response(st, &empty)
            } else if params.stream_id == 0 {
                if self.playback.len() != 0 {
                    return response(SndStatus::BadMsg, &empty);
                }
                let st = self.apply_stream_control(0, PcmControl::SetParams, Some(params));
                response(st, &empty)
            } else {
                response(SndStatus::BadMsg, &empty)
            }
        } else if code == VIRTIO_SND_R_PCM_PREPARE || code == VIRTIO_SND_R_PCM_START
            || code == VIRTIO_SND_R_PCM_STOP || code == VIRTIO_SND_R_PCM_RELEASE {
            self.handle_pcm_lifecycle(request, code)
        } else {
            response(SndStatus::NotSupp, &empty)
        }
    }
}


/// Bytes held by a playback queue: two bytes per sample, saturating.
pub open spec fn playback_bytes(q: Seq<PendingPcm>) -> u32
    decreases q.len(),
{
    if q.len() == 0 {
        0
    } else {
        let rest = playback_bytes(q.drop_last());
        let add = if q.last().samples as int * 2 > u32::MAX { u32::MAX } else { (q.last().samples * 2) as u32 };
        if rest + add > u32::MAX { u32::MAX } else { (rest + add) as u32 }
    }
}

/// Bytes held by a capture queue: one period per buffer, saturating.
pub open spec fn capture_bytes(q: Seq<PendingCapture>) -> u32
    decreases q.len(),
{
    if q.len() == 0 {
        0
    } else {
        let rest = capture_bytes(q.drop_last());
        if rest + q.last().period_bytes > u32::MAX { u32::MAX } else { (rest + q.last().period_bytes) as u32 }
    }
}

impl SndState {
    /// Number of output transfers held for clock-paced completion.
    pub fn playback_pending_count(&self) -> (r: usize)
        ensures r == self.spec_playback().len(),
    {
        self.playback.len()
    }

    /// Number of asynchronous events waiting for a guest eventq buffer.
    pub fn pending_event_count(&self) -> (r: usize)
        ensures r == self.spec_events().len(),
    {
        self.events.len()
    }

    /// Number of XRUN notifications discarded after the event budget filled.
    pub fn dropped_xrun_events(&self) -> (r: u64)
        ensures r == self.spec_dropped(),
    {
        self.dropped_xruns
    }

    /// Bytes held by the playback pacing queue.
    pub fn playback_pending_bytes(&self) -> (r: u32)
        ensures r == playback_bytes(self.spec_playback()),
    {
        let mut total: u32 = 0;
        let mut k: usize = 0;
        while k < self.playback.len()
            invariant
                k <= self.playback@.len(),
                total == playback_bytes(self.playback@.subrange(0, k as int)),
            decreases self.playback.len() - k,
        {
            let t = self.playback[k];
            assert(self.playback@.subrange(0, k + 1).drop_last() =~= self.playback@.subrange(0, k as int));
            let doubled: u32 = if t.samples > u32::MAX / 2 { u32::MAX } else { t.samples * 2 };
            total = total.saturating_add(doubled);
            k += 1;
        }
        assert(self.playback@.subrange(0, self.playback@.len() as int) =~= self.playback@);
        total
    }

    /// Bytes held by the capture pacing queue.
    pub fn capture_pending_bytes(&self) -> (r: u32)
        ensures r == capture_bytes(self.spec_capture()),
    {
        let mut total: u32 = 0;
        let mut k: usize = 0;
        while k < self.capture.len()
            invariant
                k <= self.capture@.len(),
                total == capture_bytes(self.capture@.subrange(0, k as int)),
            decreases self.capture.len() - k,
        {
            let t = self.capture[k];
            assert(self.capture@.subrange(0, k + 1).drop_last() =~= self.capture@.subrange(0, k as int));
            total = total.saturating_add(t.period_bytes);
            k += 1;
        }
        assert(self.capture@.subrange(0, self.capture@.len() as int) =~= self.capture@);
        total
    }

    /// Hold one well-formed output transfer of `samples` interleaved samples until its audio
    /// deadline. Only a running output stream accepts transfers.
    pub fn enqueue_playback(&mut self, samples: u32, sample_rate_hz: u32, duration_ns: u64, deadline_ns: u64) -> (r: bool)
        ensures
            r == (old(self).spec_stream().spec_state() == PcmState::Running),
            r ==> final(self).spec_playback() == old(self).spec_playback().push(PendingPcm { samples, sample_rate_hz, duration_ns, deadline_ns }),
            !r ==> *final(self) == *old(self),
            final(self).spec_stream() == old(self).spec_stream(),
            final(self).spec_events() == old(self).spec_events(),
            final(self).spec_capture() == old(self).spec_capture(),
    {
        if !matches!(self.stream.state(), PcmState::Running) {
            return false;
        }
        self.playback.push(PendingPcm { samples, sample_rate_hz, duration_ns, deadline_ns });
        true
    }

    /// Hold one well-formed input buffer until its capture deadline. Only a running input
    /// stream accepts buffers.
    pub fn enqueue_capture(&mut self, frame_count: u32, channels: u8, sample_rate_hz: u32, period_bytes: u32, duration_ns: u64, deadline_ns: u64) -> (r: bool)
        ensures
            r == (old(self).spec_capture_enabled() && old(self).spec_capture_stream().spec_state() == PcmState::Running),
            r ==> final(self).spec_capture() == old(self).spec_capture().push(PendingCapture { frame_count, channels, sample_rate_hz, period_bytes, duration_ns, deadline_ns }),
            !r ==> *final(self) == *old(self),
            final(self).spec_capture_stream() == old(self).spec_capture_stream(),
            final(self).spec_events() == old(self).spec_events(),
            final(self).spec_playback() == old(self).spec_playback(),
    {
        if !self.capture_enabled || !matches!(self.capture_stream.state(), PcmState::Running) {
            return false;
        }
        self.capture.push(PendingCapture { frame_count, channels, sample_rate_hz, period_bytes, duration_ns, deadline_ns });
        true
    }

    /// The oldest undelivered event.
    pub fn next_event(&self) -> (r: Option<SndEvent>)
        ensures r == (if self.spec_events().len() == 0 { None } else { Some(self.spec_events()[0]) }),
    {
        if self.events.len() == 0 { None } else { Some(self.events[0]) }
    }

    /// Retire the oldest event after it was delivered; refused unless it is `event`.
    pub fn complete_event(&mut self, event: SndEvent) -> (r: bool)
        ensures
            r == (old(self).spec_events().len() > 0 && old(self).spec_events()[0] == event),
            r ==> final(self).spec_events() == old(self).spec_events().drop_first(),
            !r ==> *final(self) == *old(self),
            final(self).spec_stream() == old(self).spec_stream(),
    {
        if self.events.len() == 0 || self.events[0].event != event.event || self.events[0].data != event.data {
            return false;
        }
        self.events.remove(0);
        assert(self.events@ =~= old(self).spec_events().drop_first());
        true
    }

    /// Mark a queue kick for later service; an unknown queue index is ignored.
    pub fn mark_queue_kick(&mut self, queue: u32)
        ensures
            final(self).spec_kicked() == (if queue < NUM_QUEUES { old(self).spec_kicked().update(queue as int, true) } else { old(self).spec_kicked() }),
            final(self).spec_stream() == old(self).spec_stream(),
            final(self).spec_events() == old(self).spec_events(),
    {
        if queue < NUM_QUEUES {
            self.kicked[queue as usize] = true;
        }
    }

    /// Consume one deferred queue-kick flag: returns it and clears it.
    pub fn take_queue_kick(&mut self, queue: u32) -> (r: bool)
        ensures
            r == (queue < NUM_QUEUES && old(self).spec_kicked()[queue as int]),
            final(self).spec_kicked() == (if queue < NUM_QUEUES { old(self).spec_kicked().update(queue as int, false) } else { old(self).spec_kicked() }),
            final(self).spec_reset_pending() == old(self).spec_reset_pending(),
            Self::same_but_flags(*old(self), *final(self)),
    {
        if queue >= NUM_QUEUES {
            return false;
        }
        let was = self.kicked[queue as usize];
        self.kicked[queue as usize] = false;
        was
    }

    /// Consume the reset marker.
    pub fn take_reset_pending(&mut self) -> (r: bool)
        ensures
            r == old(self).spec_reset_pending(),
            !final(self).spec_reset_pending(),
            final(self).spec_kicked() == old(self).spec_kicked(),
            Self::same_but_flags(*old(self), *final(self)),
    {
        let pending = self.reset_pending;
        self.reset_pending = false;
        pending
    }

    /// Output is in flight: the stream runs, transfers wait for the clock, or a release waits to
    /// complete.
    pub open spec fn audio_active(&self) -> bool {
        self.spec_stream().spec_state() == PcmState::Running || self.spec_playback().len() != 0 || self.spec_playback_release()
    }

    /// Input is in flight on the enabled input stream: it runs, buffers wait for the clock, or a
    /// release waits to complete.
    pub open spec fn capture_active(&self) -> bool {
        self.spec_capture_enabled() && (self.spec_capture_stream().spec_state() == PcmState::Running
            || self.spec_capture().len() != 0 || self.spec_capture_release())
    }

    /// Begin a service pass: consume the reset marker and the kicks of the control, event and
    /// transmit queues, and of the receive queue when a capture queue and source are wired
    /// (`has_capture`), and plan the pass from them and what is in flight.
    pub fn plan_service(&mut self, has_controlq: bool, has_eventq: bool, has_capture: bool) -> (r: ServicePlan)
        ensures
            r == plan_of(old(self).spec_reset_pending(), old(self).spec_kicked(), old(self).audio_active(),
                old(self).capture_active(), old(self).spec_events().len() != 0, has_controlq, has_eventq, has_capture),
            !final(self).spec_reset_pending(),
            final(self).spec_kicked() == (if has_capture {
                seq![false, false, false, false]
            } else {
                seq![false, false, false, old(self).spec_kicked()[3]]
            }),
            Self::same_but_flags(*old(self), *final(self)),
    {
        let ghost k0 = self.kicked@;
        proof { assert(k0.len() == 4); }
        let reset = self.take_reset_pending();
        let control_kicked = self.take_queue_kick(CONTROL_QUEUE);
        let tx_kicked = self.take_queue_kick(TX_QUEUE);
        let rx_kicked = if has_capture { self.take_queue_kick(RX_QUEUE) } else { false };
        let event_kicked = self.take_queue_kick(EVENT_QUEUE);
        let active_audio = matches!(self.stream.state(), PcmState::Running) || self.playback.len() != 0
            || self.playback_release_pending;
        let active_capture = self.capture_enabled && (matches!(self.capture_stream.state(), PcmState::Running)
            || self.capture.len() != 0 || self.capture_release_pending);
        let active_events = self.events.len() != 0;
        let kicks = [control_kicked, event_kicked, tx_kicked, rx_kicked];
        let r = service_plan(reset, kicks, active_audio, active_capture, active_events, has_controlq, has_eventq, has_capture);
        proof {
            assert(kicks@[0] == k0[0] && kicks@[1] == k0[1] && kicks@[2] == k0[2]);
            assert(has_capture ==> kicks@[3] == k0[3]);
            assert(self.kicked@ =~= (if has_capture { seq![false, false, false, false] } else { seq![false, false, false, k0[3]] }));
        }
        r
    }

    /// Reset stream and deferred transport state, keeping the rate mask and the input-stream
    /// selection, and marking a reset as pending.
    pub fn reset(&mut self)
        ensures
            final(self).spec_stream().spec_state() == PcmState::Released, final(self).spec_stream().spec_params() is None,
            final(self).spec_capture_stream().spec_state() == PcmState::Released, final(self).spec_capture_stream().spec_params() is None,
            final(self).spec_kicked() == seq![false, false, false, false],
            final(self).spec_reset_pending(),
            final(self).spec_epoch() == 0, final(self).spec_capture_epoch() == 0,
            final(self).spec_capture_start_count() == 0,
            final(self).spec_playback().len() == 0, final(self).spec_capture().len() == 0,
            final(self).spec_events().len() == 0, final(self).spec_dropped() == 0,
            final(self).spec_rate_mask() == old(self).spec_rate_mask(),
            final(self).spec_capture_enabled() == old(self).spec_capture_enabled(),
    {
        self.stream.reset();
        self.capture_stream.reset();
        self.kicked = [false; 4];
        self.reset_pending = true;
        self.lifecycle_epoch = 0;
        self.capture_lifecycle_epoch = 0;
        self.capture_start_count = 0;
        self.playback = Vec::new();
        self.playback_observed_epoch = 0;
        self.playback_release_pending = false;
        self.next_xrun_ns = None;
        self.period_duration_ns = 0;
        self.capture = Vec::new();
        self.capture_observed_epoch = 0;
        self.capture_release_pending = false;
        self.events = Vec::new();
        self.dropped_xruns = 0;
        assert(self.kicked@ =~= seq![false, false, false, false]);
    }
}

impl Default for SndState {
    fn default() -> (r: Self)
        ensures
            r.spec_stream().spec_state() == PcmState::Released,
            r.spec_rate_mask() == SUPPORTED_PCM_RATE_MASK,
            !r.spec_capture_enabled(),
    {
        SndState::new()
    }
}


impl SndState {

    fn encode_header_a(&self, out: &mut Vec<u8>)
        requires old(out)@.len() == 0,
        ensures final(out)@ == header_a(*self),
    {
        let mut m: usize = 0;
        while m < 8
            invariant m <= 8, out@ == MAGIC@.subrange(0, m as int),
            decreases 8 - m,
        {
            out.push(MAGIC[m]);
            m += 1;
            assert(out@ =~= MAGIC@.subrange(0, m as int));
        }
        assert(MAGIC@.subrange(0, 8) =~= MAGIC@);
        push_u16(out, VERSION);
        push_u16(out, 0);
        push_bool_word(out, self.capture_enabled);
        push_u64(out, self.pcm_rate_mask);
        push_u64(out, self.capture_start_count);
        push_u64(out, self.lifecycle_epoch);
        push_u64(out, self.capture_lifecycle_epoch);
        push_stream(out, &self.stream);
        push_stream(out, &self.capture_stream);
        assert(out@ =~= header_a(*self));
    }

    #[verifier::rlimit(20)]
    fn encode_header_b(&self, out: &mut Vec<u8>, playback_count: u32, playback_bytes_v: u32, capture_count: u32, capture_bytes_v: u32, event_count: u32)
        requires
            playback_count == self.spec_playback().len(), capture_count == self.spec_capture().len(),
            event_count == self.spec_events().len(),
            playback_bytes_v == playback_bytes(self.spec_playback()), capture_bytes_v == capture_bytes(self.spec_capture()),
        ensures final(out)@ == with_header_b(old(out)@, *self),
    {
        let ghost start = out@;
        push_u32(out, playback_count);
        push_u32(out, playback_bytes_v);
        push_u64(out, self.playback_observed_epoch);
        push_bool_word(out, self.playback_release_pending);
        push_bool_word(out, self.next_xrun_ns.is_some());
        push_u64(out, match self.next_xrun_ns { Some(v) => v, None => 0 });
        push_u64(out, self.period_duration_ns);
        push_u32(out, capture_count);
        push_u32(out, capture_bytes_v);
        push_u64(out, self.capture_observed_epoch);
        push_bool_word(out, self.capture_release_pending);
        push_u32(out, event_count);
        push_u64(out, self.dropped_xruns);
        out.push(if self.kicked[0] { 1u8 } else { 0u8 });
        out.push(if self.kicked[1] { 1u8 } else { 0u8 });
        out.push(if self.kicked[2] { 1u8 } else { 0u8 });
        out.push(if self.kicked[3] { 1u8 } else { 0u8 });
        push_bool_word(out, self.reset_pending);
    }

    /// Encode the stream configuration and bounded queue metadata for a checkpoint. Fails with
    /// the first validation error; an allocation the allocator refuses is `OutOfMemory`.
    #[verifier::rlimit(40)]
    fn encode_checks(&self) -> (r: Result<(), SndSnapshotError>)
        ensures
            match encode_error(*self) {
                Some(e) => r == Err::<(), SndSnapshotError>(e),
                None => r is Ok,
            },
    {
        validate_rate_mask(self.pcm_rate_mask)?;
        validate_stream(0, self.stream.state(), self.stream.params(), self.pcm_rate_mask, true)?;
        validate_stream(CAPTURE_STREAM_ID, self.capture_stream.state(), self.capture_stream.params(), self.pcm_rate_mask, self.capture_enabled)?;
        if !self.capture_enabled && (!matches!(self.capture_stream.state(), PcmState::Released)
            || self.capture_stream.params().is_some() || self.capture.len() != 0) {
            return Err(SndSnapshotError::InvalidStreamState { stream: CAPTURE_STREAM_ID, state: self.capture_stream.state().index() });
        }
        if self.playback.len() > 0xffff_ffff || self.capture.len() > 0xffff_ffff {
            return Err(SndSnapshotError::LengthOverflow);
        }
        let playback_count = self.playback.len() as u32;
        let capture_count = self.capture.len() as u32;
        let playback_bytes_v = self.playback_pending_bytes();
        let capture_bytes_v = self.capture_pending_bytes();
        let out_period = match self.stream.params() { Some(p) => Some(p.period_bytes), None => None };
        let cap_period = match self.capture_stream.params() { Some(p) => Some(p.period_bytes), None => None };
        validate_pending_metadata(0, playback_count, playback_bytes_v, out_period)?;
        validate_pending_metadata(CAPTURE_STREAM_ID, capture_count, capture_bytes_v, cap_period)?;
        if self.events.len() > MAX_PENDING_SND_EVENTS {
            return Err(SndSnapshotError::TooManyEvents { found: self.events.len(), maximum: MAX_PENDING_SND_EVENTS });
        }
        let mut k: usize = 0;
        while k < self.events.len()
            invariant
                k <= self.events@.len(),
                first_bad_event(self.events@, self.capture_enabled, 0) == first_bad_event(self.events@, self.capture_enabled, k as int),
                encode_error(*self) == (match first_bad_event(self.events@, self.capture_enabled, 0) {
                    Some(ev) => Some(SndSnapshotError::InvalidEvent { event: ev }),
                    None => None,
                }),
            decreases self.events.len() - k,
        {
            let ev = self.events[k];
            validate_event(ev, self.capture_enabled)?;
            k += 1;
        }
        Ok(())
    }


    /// Encode the stream configuration and bounded queue metadata for a checkpoint. Fails with
    /// the first validation error; an allocation the allocator refuses is `OutOfMemory`.
    #[verifier::rlimit(40)]
    pub fn to_snapshot(&self) -> (r: Result<Vec<u8>, SndSnapshotError>)
        ensures
            match encode_error(*self) {
                Some(e) => r == Err::<Vec<u8>, SndSnapshotError>(e),
                None => (r matches Ok(b) && b@ == snapshot_bytes(*self)) || r == Err::<Vec<u8>, SndSnapshotError>(SndSnapshotError::OutOfMemory),
            },
    {
        self.encode_checks()?;
        let playback_count = self.playback.len() as u32;
        let capture_count = self.capture.len() as u32;
        let playback_bytes_v = self.playback_pending_bytes();
        let capture_bytes_v = self.capture_pending_bytes();
        let event_count = self.events.len() as u32;
        let total_len = 184 + self.events.len() * 8;
        let mut out: Vec<u8> = Vec::new();
        if out.try_reserve(total_len).is_err() {
            return Err(SndSnapshotError::OutOfMemory);
        }
        self.encode_header_a(&mut out);
        self.encode_header_b(&mut out, playback_count, playback_bytes_v, capture_count, capture_bytes_v, event_count);
        let ghost header = out@;
        let mut e: usize = 0;
        while e < self.events.len()
            invariant
                e <= self.events@.len(),
                out@ == header + events_bytes(self.events@.subrange(0, e as int)),
            decreases self.events.len() - e,
        {
            let b = self.events[e].to_bytes();
            let mut q: usize = 0;
            let ghost before = out@;
            while q < 8
                invariant q <= 8, b@.len() == 8, out@ == before + b@.subrange(0, q as int),
                decreases 8 - q,
            {
                out.push(b[q]);
                q += 1;
                assert(out@ =~= before + b@.subrange(0, q as int));
            }
            assert(b@.subrange(0, 8) =~= b@);
            assert(self.events@.subrange(0, e + 1).drop_last() =~= self.events@.subrange(0, e as int));
            assert(out@ =~= header + events_bytes(self.events@.subrange(0, e + 1)));
            e += 1;
        }
        assert(self.events@.subrange(0, self.events@.len() as int) =~= self.events@);
        Ok(out)
    }
}


/// `x - 1` modulo 2^64.
pub open spec fn wrap_dec(x: u64) -> u64 {
    if x == 0 { u64::MAX } else { (x - 1) as u64 }
}

/// Whether the checkpoint `s` records a running output stream.
pub open spec fn output_running(s: Seq<u8>) -> bool {
    stream_at(s, 48).state == PcmState::Running
}

/// Whether the checkpoint `s` records an enabled, running input stream.
pub open spec fn capture_running(s: Seq<u8>) -> bool {
    s[12] == 1 && stream_at(s, 76).state == PcmState::Running
}

/// The number of events a restore of checkpoint `s` queues: the recorded ones plus one repair
/// XRUN per running stream.
pub open spec fn restore_event_count(s: Seq<u8>) -> nat {
    u32_at(s, 164) as nat + (if output_running(s) { 1nat } else { 0nat }) + (if capture_running(s) { 1nat } else { 0nat })
}

/// The repair XRUNs a restore queues ahead of the recorded events.
pub open spec fn repair_events(s: Seq<u8>) -> Seq<SndEvent> {
    (if output_running(s) { seq![SndEvent { event: super::VIRTIO_SND_EVT_PCM_XRUN, data: 0 }] } else { Seq::empty() })
        + (if capture_running(s) { seq![SndEvent { event: super::VIRTIO_SND_EVT_PCM_XRUN, data: CAPTURE_STREAM_ID }] } else { Seq::empty() })
}

impl SndState {
    /// `t` is the state restored from checkpoint `s`, and `rep` the restore report: the recorded
    /// configuration, counters, kick flags and reset marker; empty pacing queues; one repair
    /// XRUN (ahead of the recorded events) for each running stream, with the event queue kicked
    /// when any was queued.
    pub open spec fn restored_from(t: SndState, s: Seq<u8>, rep: SndRestoreReport) -> bool {
        let xruns: u32 = ((if output_running(s) { 1u32 } else { 0u32 }) + (if capture_running(s) { 1u32 } else { 0u32 })) as u32;
        &&& t.spec_capture_enabled() == (s[12] == 1)
        &&& t.spec_rate_mask() == super::wire::u64_at(s, 16)
        &&& t.spec_capture_start_count() == super::wire::u64_at(s, 24)
        &&& t.spec_epoch() == super::wire::u64_at(s, 32)
        &&& t.spec_capture_epoch() == super::wire::u64_at(s, 40)
        &&& t.spec_stream().spec_state() == stream_at(s, 48).state
        &&& t.spec_stream().spec_params() == stream_at(s, 48).params
        &&& t.spec_capture_stream().spec_state() == stream_at(s, 76).state
        &&& t.spec_capture_stream().spec_params() == stream_at(s, 76).params
        &&& t.spec_playback().len() == 0 && t.spec_capture().len() == 0
        &&& !t.spec_playback_release() && !t.spec_capture_release()
        &&& t.spec_next_xrun() is None && t.spec_period_duration() == 0
        &&& t.spec_playback_observed() == (if output_running(s) { wrap_dec(super::wire::u64_at(s, 32)) } else { super::wire::u64_at(s, 112) })
        &&& t.spec_capture_observed() == (if capture_running(s) { wrap_dec(super::wire::u64_at(s, 40)) } else { super::wire::u64_at(s, 152) })
        &&& t.spec_events() == repair_events(s) + events_at(s, 184, u32_at(s, 164) as nat)
        &&& t.spec_dropped() == super::wire::u64_at(s, 168)
        &&& t.spec_kicked() == seq![s[176] == 1, s[177] == 1 || xruns != 0, s[178] == 1, s[179] == 1]
        &&& t.spec_reset_pending() == (s[180] == 1)
        &&& rep == (SndRestoreReport {
            host_audio_rings_discarded: true,
            discarded_playback_transfers: u32_at(s, 104),
            discarded_capture_transfers: u32_at(s, 144),
            xrun_events: xruns,
        })
    }

    /// Restore a checkpoint atomically: on any error the state is unchanged; on success the
    /// recorded configuration replaces it, the host rings are dropped, and each running stream
    /// gets one repair XRUN within the event budget.
    #[verifier::rlimit(40)]
    pub fn restore_snapshot(&mut self, payload: &[u8]) -> (r: Result<SndRestoreReport, SndSnapshotError>)
        ensures
            r is Err ==> *final(self) == *old(self),
            payload@.len() < 184 ==> r == Err::<SndRestoreReport, SndSnapshotError>(SndSnapshotError::Truncated),
            payload@.len() >= 184 && payload@.subrange(0, 8) != MAGIC@ ==> r == Err::<SndRestoreReport, SndSnapshotError>(SndSnapshotError::BadMagic),
            payload@.len() >= 184 && payload@.subrange(0, 8) == MAGIC@ && u16_at(payload@, 8) != VERSION
                ==> r == Err::<SndRestoreReport, SndSnapshotError>(SndSnapshotError::UnsupportedVersion { found: u16_at(payload@, 8), supported: VERSION }),
            r matches Ok(rep) ==> frame_ok(payload@) && Self::restored_from(*final(self), payload@, rep),
            decode_error(payload@) matches Some(e) ==> r == Err::<SndRestoreReport, SndSnapshotError>(e),
            !snapshot_ok(payload@) ==> r is Err && r != Err::<SndRestoreReport, SndSnapshotError>(SndSnapshotError::OutOfMemory),
            snapshot_ok(payload@) && restore_event_count(payload@) > MAX_PENDING_SND_EVENTS ==> r == Err::<SndRestoreReport, SndSnapshotError>(
                SndSnapshotError::TooManyEvents { found: restore_event_count(payload@) as usize, maximum: MAX_PENDING_SND_EVENTS }),
            snapshot_ok(payload@) && restore_event_count(payload@) <= MAX_PENDING_SND_EVENTS
                ==> r is Ok || r == Err::<SndRestoreReport, SndSnapshotError>(SndSnapshotError::OutOfMemory),
    {
        let d = decode(payload)?;
        let out_running = matches!(d.output.state, PcmState::Running);
        let cap_running = d.capture_enabled && matches!(d.capture.state, PcmState::Running);
        let xrun_count: usize = (if out_running { 1 } else { 0 }) + (if cap_running { 1 } else { 0 });
        let total = d.events.len() + xrun_count;
        if total > MAX_PENDING_SND_EVENTS {
            return Err(SndSnapshotError::TooManyEvents { found: total, maximum: MAX_PENDING_SND_EVENTS });
        }
        let mut events: Vec<SndEvent> = Vec::new();
        if events.try_reserve(total).is_err() {
            return Err(SndSnapshotError::OutOfMemory);
        }
        if out_running {
            events.push(SndEvent::pcm_xrun(0));
        }
        if cap_running {
            events.push(SndEvent::pcm_xrun(CAPTURE_STREAM_ID));
        }
        let ghost prefix = events@;
        let mut k: usize = 0;
        while k < d.events.len()
            invariant
                k <= d.events@.len(),
                events@ == prefix + d.events@.subrange(0, k as int),
            decreases d.events.len() - k,
        {
            events.push(d.events[k]);
            k += 1;
            assert(events@ =~= prefix + d.events@.subrange(0, k as int));
        }
        assert(d.events@.subrange(0, d.events@.len() as int) =~= d.events@);
        let mut kicked = d.kicked;
        if xrun_count != 0 {
            kicked[EVENT_QUEUE_INDEX] = true;
        }
        let report = SndRestoreReport {
            host_audio_rings_discarded: true,
            discarded_playback_transfers: d.playback_count,
            discarded_capture_transfers: d.capture_count,
            xrun_events: xrun_count as u32,
        };
        self.capture_enabled = d.capture_enabled;
        self.pcm_rate_mask = d.pcm_rate_mask;
        self.capture_start_count = d.capture_start_count;
        self.lifecycle_epoch = d.lifecycle_epoch;
        self.capture_lifecycle_epoch = d.capture_lifecycle_epoch;
        self.stream = PcmStream::from_parts(d.output.state, d.output.params);
        self.capture_stream = PcmStream::from_parts(d.capture.state, d.capture.params);
        self.playback = Vec::new();
        self.playback_observed_epoch = if out_running { d.lifecycle_epoch.wrapping_sub(1) } else { d.playback_observed_epoch };
        self.playback_release_pending = false;
        self.next_xrun_ns = None;
        self.period_duration_ns = 0;
        self.capture = Vec::new();
        self.capture_observed_epoch = if cap_running { d.capture_lifecycle_epoch.wrapping_sub(1) } else { d.capture_observed_epoch };
        self.capture_release_pending = false;
        self.events = events;
        self.dropped_xruns = d.dropped_xruns;
        self.kicked = kicked;
        self.reset_pending = d.reset_pending;
        assert(self.events@ =~= repair_events(payload@) + events_at(payload@, 184, u32_at(payload@, 164) as nat));
        assert(self.kicked@ =~= seq![payload@[176] == 1, payload@[177] == 1 || xrun_count != 0, payload@[178] == 1, payload@[179] == 1]);
        Ok(report)
    }
}

/// A lifecycle request (PREPARE, START, STOP or RELEASE) for the output stream, as the control
/// queue carries it, is answered with the state machine's status for the stream's current state,
/// moves the stream to that state's successor (staying put when refused), and keeps its
/// parameters unless it is a RELEASE.
pub proof fn lemma_lifecycle_request(a: SndState, b: SndState, code: u32, r: Seq<u8>)
    requires
        code == VIRTIO_SND_R_PCM_PREPARE || code == VIRTIO_SND_R_PCM_START
            || code == VIRTIO_SND_R_PCM_STOP || code == VIRTIO_SND_R_PCM_RELEASE,
        r == response_bytes(a.control_status(u32_bytes(code) + u32_bytes(0)), a.control_payload(u32_bytes(code) + u32_bytes(0))),
        a.control_status(u32_bytes(code) + u32_bytes(0)) != SndStatus::Success ==> b == a,
        a.control_status(u32_bytes(code) + u32_bytes(0)) == SndStatus::Success
            ==> SndState::accepted_effect(a, b, u32_bytes(code) + u32_bytes(0)),
    ensures ({
        let c = control_of_code(code)->0;
        &&& r == u32_bytes(status_code(oracle_status(a.spec_stream().spec_state(), c)))
        &&& b.spec_stream().spec_state() == next_state(a.spec_stream().spec_state(), c)
        &&& (c != PcmControl::Release ==> b.spec_stream().spec_params() == a.spec_stream().spec_params())
    }),
{
    let req = u32_bytes(code) + u32_bytes(0);
    super::wire::lemma_u32_roundtrip(code);
    super::wire::lemma_u32_roundtrip(0);
    assert(req.len() == 8);
    assert(u32_at(req, 0) == u32_at(u32_bytes(code), 0)) by {
        assert(req.subrange(0, 4) =~= u32_bytes(code));
    }
    assert(u32_at(req, 4) == u32_at(u32_bytes(0), 0)) by {
        assert(req[4] == u32_bytes(0)[0] && req[5] == u32_bytes(0)[1] && req[6] == u32_bytes(0)[2] && req[7] == u32_bytes(0)[3]);
    }
    assert(r =~= u32_bytes(status_code(oracle_status(a.spec_stream().spec_state(), control_of_code(code)->0))) + Seq::empty());
}

/// Index of the event queue's kick flag.
pub const EVENT_QUEUE_INDEX: usize = 1;

} // verus!
