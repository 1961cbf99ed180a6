//! virtio-snd control plane: the guest-visible identity, configuration queries, the PCM
//! capability contract and lifecycle validation, bounded event delivery and checkpoints.
//! Wire helpers use explicit little-endian encoding.

use vstd::prelude::*;

pub mod chain;
pub mod device;
pub mod pcm;
pub mod readback;
pub mod service;
pub mod snapshot;
pub mod state;
pub mod wav;
pub mod wire;

pub use pcm::{PcmState, PcmControl, PcmTransition, PcmStream, transition, PCM_STATE_COUNT, PCM_CONTROL_COUNT, PCM_TRANSITION_ORACLE, TRANSITION_ORACLE};
pub use device::{VirtioSnd, new};
pub use snapshot::{SndRestoreReport, SndSnapshotError};
pub use state::SndState;
pub use wire::{QueryInfo, SndInfo, JackInfo, PcmInfo, ChmapInfo, PcmParams, PcmXfer, PcmStatus, SndEvent, PlaybackReport, CaptureReport};

verus! {

/// Virtio device id of a sound device.
pub const VIRTIO_SND_DEVICE_ID: u32 = 25;
pub const CONTROL_QUEUE: u32 = 0;
pub const EVENT_QUEUE: u32 = 1;
pub const TX_QUEUE: u32 = 2;
pub const RX_QUEUE: u32 = 3;
pub const NUM_QUEUES: u32 = 4;
/// The virtio-mmio slot the sound device occupies.
pub const VIRTIO_SND_SLOT: usize = 6;
pub const JACK_COUNT: u32 = 1;
pub const PCM_STREAM_COUNT: u32 = 1;
/// Stream id of the optional input stream.
pub const CAPTURE_STREAM_ID: u32 = 1;
pub const PCM_STREAM_COUNT_WITH_CAPTURE: u32 = 2;
pub const CHMAP_COUNT: u32 = 1;
pub const CONFIG_SIZE: usize = 12;

pub const VIRTIO_SND_R_JACK_INFO: u32 = 0x0001;
pub const VIRTIO_SND_R_JACK_REMAP: u32 = 0x0002;
pub const VIRTIO_SND_R_PCM_INFO: u32 = 0x0100;
pub const VIRTIO_SND_R_PCM_SET_PARAMS: u32 = 0x0101;
pub const VIRTIO_SND_R_PCM_PREPARE: u32 = 0x0102;
pub const VIRTIO_SND_R_PCM_RELEASE: u32 = 0x0103;
pub const VIRTIO_SND_R_PCM_START: u32 = 0x0104;
pub const VIRTIO_SND_R_PCM_STOP: u32 = 0x0105;
pub const VIRTIO_SND_R_CHMAP_INFO: u32 = 0x0200;

pub const VIRTIO_SND_D_OUTPUT: u8 = 0;
pub const VIRTIO_SND_D_INPUT: u8 = 1;

pub const VIRTIO_SND_PCM_F_SHMEM_HOST: u32 = 1;
pub const VIRTIO_SND_PCM_F_SHMEM_GUEST: u32 = 2;
pub const VIRTIO_SND_PCM_F_MSG_POLLING: u32 = 4;
pub const VIRTIO_SND_PCM_F_EVT_SHMEM_PERIODS: u32 = 8;
pub const VIRTIO_SND_PCM_F_EVT_XRUNS: u32 = 16;

pub const VIRTIO_SND_EVT_JACK_CONNECTED: u32 = 0x100;
pub const VIRTIO_SND_EVT_JACK_DISCONNECTED: u32 = 0x101;
pub const VIRTIO_SND_EVT_PCM_PERIOD_ELAPSED: u32 = 0x110;
pub const VIRTIO_SND_EVT_PCM_XRUN: u32 = 0x111;

pub const VIRTIO_SND_PCM_FMT_S16: u8 = 5;
pub const VIRTIO_SND_PCM_RATE_44100: u8 = 6;
pub const VIRTIO_SND_PCM_RATE_48000: u8 = 7;
pub const VIRTIO_SND_PCM_RATE_96000: u8 = 10;

/// Rate bits exposed by the output stream: 44.1 kHz and 48 kHz.
pub const SUPPORTED_PCM_RATE_MASK: u64 = 0xc0;
/// The input stream is fixed at 48 kHz.
pub const SUPPORTED_CAPTURE_PCM_RATE_MASK: u64 = 0x80;

pub const VIRTIO_SND_CHMAP_FL: u8 = 3;
pub const VIRTIO_SND_CHMAP_FR: u8 = 4;
pub const VIRTIO_SND_CHMAP_MAX_SIZE: usize = 18;

pub const QUERY_INFO_SIZE: usize = 16;
pub const JACK_INFO_SIZE: usize = 24;
pub const PCM_INFO_SIZE: usize = 32;
pub const CHMAP_INFO_SIZE: usize = 24;
pub const PCM_HDR_SIZE: usize = 8;
pub const PCM_SET_PARAMS_SIZE: usize = 24;
/// Largest control request accepted by the queue service.
pub const MAX_CONTROL_REQUEST_BYTES: usize = 24;
pub const PCM_XFER_HDR_SIZE: usize = 4;
pub const PCM_STATUS_SIZE: usize = 8;
pub const SND_EVENT_SIZE: usize = 8;
pub const VIRTIO_SND_EVENT_SIZE: usize = 8;
/// Maximum number of asynchronous sound events retained while the guest is not polling.
pub const MAX_PENDING_SND_EVENTS: usize = 256;
/// One stereo S16 frame is four bytes.
pub const PCM_FRAME_BYTES: u32 = 4;
/// Largest PCM buffer the control contract accepts.
pub const MAX_PCM_BUFFER_BYTES: u32 = 16777216;

/// Status values returned by the control-plane dispatcher.
#[derive(Debug, Clone, Copy, PartialEq, Eq)]
pub enum SndStatus {
    Success,
    BadMsg,
    NotSupp,
    IoErr,
}

pub const VIRTIO_SND_S_OK: u32 = 0x8000;
pub const VIRTIO_SND_S_BAD_MSG: u32 = 0x8001;
pub const VIRTIO_SND_S_NOT_SUPP: u32 = 0x8002;
pub const VIRTIO_SND_S_IO_ERR: u32 = 0x8003;

/// The guest-visible code of a status.
pub open spec fn status_code(s: SndStatus) -> u32 {
    match s {
        SndStatus::Success => VIRTIO_SND_S_OK,
        SndStatus::BadMsg => VIRTIO_SND_S_BAD_MSG,
        SndStatus::NotSupp => VIRTIO_SND_S_NOT_SUPP,
        SndStatus::IoErr => VIRTIO_SND_S_IO_ERR,
    }
}

impl SndStatus {
    /// The guest-visible little-endian status code.
    pub fn code(self) -> (r: u32)
        ensures r == status_code(self),
    {
        match self {
            SndStatus::Success => VIRTIO_SND_S_OK,
            SndStatus::BadMsg => VIRTIO_SND_S_BAD_MSG,
            SndStatus::NotSupp => VIRTIO_SND_S_NOT_SUPP,
            SndStatus::IoErr => VIRTIO_SND_S_IO_ERR,
        }
    }
}

} // verus!

verus! {

/// A monotonic nanosecond source injected into the paced playback service.
pub trait AudioClock {
    /// The current monotonic time in nanoseconds.
    fn now_ns(&self) -> u64;
}

/// Deterministic, manually advanced clock for fixtures and embedders.
#[derive(Debug, Default)]
pub struct ManualAudioClock {
    now_ns: u64,
}

impl ManualAudioClock {
    /// The time this clock reads.
    pub closed spec fn spec_now(&self) -> u64 {
        self.now_ns
    }

    /// A clock at time zero.
    pub fn new() -> (r: Self)
        ensures r.spec_now() == 0,
    {
        ManualAudioClock { now_ns: 0 }
    }

    /// Set the monotonic time. Callers must not move it backwards.
    pub fn set_now_ns(&mut self, now_ns: u64)
        ensures final(self).spec_now() == now_ns,
    {
        self.now_ns = now_ns;
    }

    /// Advance the clock, saturating instead of wrapping.
    pub fn advance_ns(&mut self, delta_ns: u64)
        ensures final(self).spec_now() == (if old(self).spec_now() + delta_ns > u64::MAX { u64::MAX } else { (old(self).spec_now() + delta_ns) as u64 }),
    {
        self.now_ns = self.now_ns.saturating_add(delta_ns);
    }
}

impl AudioClock for ManualAudioClock {
    fn now_ns(&self) -> u64 {
        self.now_ns
    }
}

/// Errors collapsed by the host-independent sink boundary.
#[derive(Debug, Clone, Copy, PartialEq, Eq)]
pub enum AudioSinkError {
    /// The sink could not accept the complete frame batch.
    Failed,
}

/// Host audio destination for one interleaved stereo S16 batch.
pub trait AudioSink {
    /// Consume interleaved left/right S16 `frames` at `sample_rate_hz`.
    fn push(&mut self, frames: &[i16], sample_rate_hz: u32) -> Result<(), AudioSinkError>;
}

/// Errors collapsed by the host-independent capture-source boundary.
#[derive(Debug, Clone, Copy, PartialEq, Eq)]
pub enum AudioCaptureError {
    /// The source could not provide the requested capture quantum.
    Failed,
}

/// Host-independent source for one interleaved S16 capture batch: writes at most `frames.len()`
/// samples and returns the number of complete frames produced.
pub trait AudioCaptureSource {
    fn pull(&mut self, frames: &mut [i16], sample_rate_hz: u32, channels: u8) -> Result<usize, AudioCaptureError>;
}

/// Deterministic silence source.
#[derive(Debug, Default)]
pub struct NullCaptureSource;

impl NullCaptureSource {
    /// Fill `frames` with silence; fails when `channels` is zero or does not divide the buffer.
    pub fn pull_silence(frames: &mut [i16], channels: u8) -> (r: Result<usize, AudioCaptureError>)
        ensures
            channels == 0 || old(frames)@.len() % (channels as nat) != 0 ==> r is Err && final(frames)@ == old(frames)@,
            channels != 0 && old(frames)@.len() % (channels as nat) == 0 ==> r == Ok::<usize, AudioCaptureError>((old(frames)@.len() / (channels as nat)) as usize)
                && final(frames)@ == Seq::new(old(frames)@.len(), |i: int| 0i16),
    {
        let n = frames.len();
        if channels == 0 || n % (channels as usize) != 0 {
            return Err(AudioCaptureError::Failed);
        }
        let mut k: usize = 0;
        while k < n
            invariant
                n == frames@.len(), k <= n,
                forall|j: int| 0 <= j < k ==> frames@[j] == 0i16,
            decreases n - k,
        {
            frames[k] = 0;
            k += 1;
        }
        assert(frames@ =~= Seq::new(n as nat, |i: int| 0i16));
        Ok(n / (channels as usize))
    }
}

impl AudioCaptureSource for NullCaptureSource {
    fn pull(&mut self, frames: &mut [i16], sample_rate_hz: u32, channels: u8) -> (r: Result<usize, AudioCaptureError>)
        ensures
            channels == 0 || old(frames)@.len() % (channels as nat) != 0 ==> r is Err && final(frames)@ == old(frames)@,
            channels != 0 && old(frames)@.len() % (channels as nat) == 0 ==> r == Ok::<usize, AudioCaptureError>((old(frames)@.len() / (channels as nat)) as usize)
                && final(frames)@ == Seq::new(old(frames)@.len(), |i: int| 0i16),
    {
        NullCaptureSource::pull_silence(frames, channels)
    }
}

/// No-op sink that counts what it accepts.
#[derive(Debug, Default)]
pub struct NullSink {
    frames_pushed: u64,
    batches: u64,
}

impl NullSink {
    /// Frames accepted so far.
    pub closed spec fn spec_frames(&self) -> u64 {
        self.frames_pushed
    }

    /// Batches accepted so far.
    pub closed spec fn spec_batches(&self) -> u64 {
        self.batches
    }

    /// An empty sink.
    pub fn new() -> (r: Self)
        ensures r.spec_frames() == 0, r.spec_batches() == 0,
    {
        NullSink { frames_pushed: 0, batches: 0 }
    }

    /// Number of stereo frames accepted so far.
    pub fn frames_pushed(&self) -> (r: u64)
        ensures r == self.spec_frames(),
    {
        self.frames_pushed
    }

    /// Number of batches accepted so far.
    pub fn batches(&self) -> (r: u64)
        ensures r == self.spec_batches(),
    {
        self.batches
    }

    /// Accept one batch: an odd sample count is refused; otherwise the frame and batch counters
    /// grow (saturating).
    pub fn accept(&mut self, samples: usize) -> (r: Result<(), AudioSinkError>)
        ensures
            samples % 2 != 0 ==> r is Err && *final(self) == *old(self),
            samples % 2 == 0 ==> r is Ok
                && final(self).spec_frames() == (if old(self).spec_frames() + samples / 2 > u64::MAX { u64::MAX } else { (old(self).spec_frames() + samples / 2) as u64 })
                && final(self).spec_batches() == (if old(self).spec_batches() + 1 > u64::MAX { u64::MAX } else { (old(self).spec_batches() + 1) as u64 }),
    {
        if samples % 2 != 0 {
            return Err(AudioSinkError::Failed);
        }
        self.frames_pushed = self.frames_pushed.saturating_add((samples / 2) as u64);
        self.batches = self.batches.saturating_add(1);
        Ok(())
    }
}

impl AudioSink for NullSink {
    fn push(&mut self, frames: &[i16], sample_rate_hz: u32) -> (r: Result<(), AudioSinkError>)
        ensures
            frames@.len() % 2 != 0 ==> r is Err && *final(self) == *old(self),
            frames@.len() % 2 == 0 ==> r is Ok
                && final(self).spec_frames() == (if old(self).spec_frames() + frames@.len() / 2 > u64::MAX { u64::MAX } else { (old(self).spec_frames() + frames@.len() / 2) as u64 })
                && final(self).spec_batches() == (if old(self).spec_batches() + 1 > u64::MAX { u64::MAX } else { (old(self).spec_batches() + 1) as u64 }),
    {
        self.accept(frames.len())
    }
}

} // verus!
