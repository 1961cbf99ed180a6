//! The transport-facing virtio-snd device: identity, configuration space, queue kicks, and the
//! control plane of its sound state.

use vstd::prelude::*;
use super::{SndState, SndSnapshotError, SndRestoreReport, VIRTIO_SND_DEVICE_ID, NUM_QUEUES, JACK_COUNT, CHMAP_COUNT};
use super::pcm::PcmState;
use super::wire::{PcmParams, u32_bytes};
use super::snapshot::{encode_error, snapshot_bytes, snapshot_ok, decode_error};
use super::state::restore_event_count;
use super::MAX_PENDING_SND_EVENTS;

verus! {

/// The transport-facing sound device. It owns the sound state the queue services act on.
pub struct VirtioSnd {
    state: SndState,
}

/// The 12 configuration bytes: jack count, stream count, channel-map count.
pub open spec fn config_spec(stream_count: u32) -> Seq<u8> {
    u32_bytes(JACK_COUNT) + u32_bytes(stream_count) + u32_bytes(CHMAP_COUNT)
}

/// The little-endian value of the configuration bytes `[offset, offset + width)` (at most 8);
/// bytes past the end read as zero.
pub open spec fn config_value(cfg: Seq<u8>, offset: u64, width: nat, i: nat) -> u64
    decreases width - i,
{
    if i >= width || i >= 8 {
        0
    } else {
        let rest = config_value(cfg, offset, width, i + 1);
        let idx = offset + i;
        let byte: u64 = if idx < cfg.len() { cfg[idx] as u64 } else { 0 };
        rest | (byte << ((8 * i) as u64))
    }
}

impl VirtioSnd {
    /// The device's sound state.
    pub closed spec fn spec_state(&self) -> SndState {
        self.state
    }

    /// The default one-jack, one-output-stream device.
    pub fn new() -> (r: Self)
        ensures r.spec_state().spec_stream().spec_state() == PcmState::Released, !r.spec_state().spec_capture_enabled(),
    {
        VirtioSnd { state: SndState::new() }
    }

    /// The device with the same fresh state as [`VirtioSnd::new`].
    pub fn new_with_state() -> (r: Self)
        ensures r.spec_state().spec_stream().spec_state() == PcmState::Released, !r.spec_state().spec_capture_enabled(),
    {
        Self::new()
    }

    /// The device with the optional input stream selected before installation.
    pub fn new_with_capture(capture_enabled: bool) -> (r: Self)
        ensures r.spec_state().spec_capture_enabled() == capture_enabled,
            r.spec_state().spec_stream().spec_state() == PcmState::Released,
    {
        let mut d = Self::new();
        d.state.set_capture_enabled(capture_enabled);
        d
    }

    /// The sound state the queue services act on.
    pub fn state_handle(&self) -> (r: &SndState)
        ensures *r == self.spec_state(),
    {
        &self.state
    }

    /// Mutable access to the sound state.
    pub fn state_mut(&mut self) -> (r: &mut SndState)
        ensures *r == old(self).spec_state(), final(self).spec_state() == *final(r),
    {
        &mut self.state
    }

    /// Encode the sound state for a checkpoint.
    pub fn to_snapshot(&self) -> (r: Result<Vec<u8>, SndSnapshotError>)
        ensures
            match encode_error(self.spec_state()) {
                Some(e) => r == Err::<Vec<u8>, SndSnapshotError>(e),
                None => (r matches Ok(b) && b@ == snapshot_bytes(self.spec_state())) || r == Err::<Vec<u8>, SndSnapshotError>(SndSnapshotError::OutOfMemory),
            },
    {
        self.state.to_snapshot()
    }

    /// Restore the sound state from a checkpoint; unchanged on error.
    pub fn restore_snapshot(&mut self, payload: &[u8]) -> (r: Result<SndRestoreReport, SndSnapshotError>)
        ensures
            r is Err ==> final(self).spec_state() == old(self).spec_state(),
            r matches Ok(rep) ==> SndState::restored_from(final(self).spec_state(), payload@, rep),
            decode_error(payload@) matches Some(e) ==> r == Err::<SndRestoreReport, SndSnapshotError>(e),
            !snapshot_ok(payload@) ==> r is Err && r != Err::<SndRestoreReport, SndSnapshotError>(SndSnapshotError::OutOfMemory),
            snapshot_ok(payload@) && restore_event_count(payload@) > MAX_PENDING_SND_EVENTS ==> r == Err::<SndRestoreReport, SndSnapshotError>(
                SndSnapshotError::TooManyEvents { found: restore_event_count(payload@) as usize, maximum: MAX_PENDING_SND_EVENTS }),
            snapshot_ok(payload@) && restore_event_count(payload@) <= MAX_PENDING_SND_EVENTS
                ==> r is Ok || r == Err::<SndRestoreReport, SndSnapshotError>(SndSnapshotError::OutOfMemory),
    {
        self.state.restore_snapshot(payload)
    }

    /// Dispatch one guest control request and return its complete response bytes.
    pub fn handle_control(&mut self, request: &[u8]) -> (r: Vec<u8>)
        ensures
            r@ == super::state::response_bytes(old(self).spec_state().control_status(request@), old(self).spec_state().control_payload(request@)),
    {
        self.state.handle_control(request)
    }

    /// The same as [`VirtioSnd::handle_control`].
    pub fn control(&mut self, request: &[u8]) -> (r: Vec<u8>)
        ensures
            r@ == super::state::response_bytes(old(self).spec_state().control_status(request@), old(self).spec_state().control_payload(request@)),
    {
        self.handle_control(request)
    }

    /// Current output stream state.
    pub fn stream_state(&self) -> (r: PcmState)
        ensures r == self.spec_state().spec_stream().spec_state(),
    {
        self.state.stream_state()
    }

    /// Current output stream parameters.
    pub fn stream_params(&self) -> (r: Option<PcmParams>)
        ensures r == self.spec_state().spec_stream().spec_params(),
    {
        self.state.stream_params()
    }

    /// The configuration space bytes.
    pub fn config_bytes(&self) -> (r: [u8; 12])
        ensures r@ == config_spec(self.spec_state().spec_stream_count()),
    {
        let mut out = [0u8; 12];
        super::wire::put_u32(&mut out, 0, JACK_COUNT);
        super::wire::put_u32(&mut out, 4, self.state.pcm_stream_count());
        super::wire::put_u32(&mut out, 8, CHMAP_COUNT);
        assert(out@ =~= config_spec(self.spec_state().spec_stream_count()));
        out
    }

    /// The virtio device id of a sound device.
    pub fn device_id(&self) -> (r: u32)
        ensures r == VIRTIO_SND_DEVICE_ID,
    {
        VIRTIO_SND_DEVICE_ID
    }

    /// Number of virtqueues.
    pub fn num_queues(&self) -> (r: u32)
        ensures r == NUM_QUEUES,
    {
        NUM_QUEUES
    }

    /// Record a queue kick for service at the next boundary.
    pub fn queue_notify(&mut self, queue: u32)
        ensures
            final(self).spec_state().spec_kicked() == (if queue < NUM_QUEUES { old(self).spec_state().spec_kicked().update(queue as int, true) } else { old(self).spec_state().spec_kicked() }),
    {
        self.state.mark_queue_kick(queue);
    }

    /// Read `width` configuration bytes at `offset`, little-endian; bytes past the end read 0.
    pub fn config_read(&self, offset: u64, width: u8) -> (r: u64)
        ensures r == config_value(config_spec(self.spec_state().spec_stream_count()), offset, width as nat, 0),
    {
        let bytes = self.config_bytes();
        let w: u64 = if width < 8 { width as u64 } else { 8 };
        let mut value: u64 = 0;
        let mut i: u64 = w;
        while i > 0
            invariant
                i <= w, w <= 8, w == (if width < 8 { width as u64 } else { 8u64 }),
                bytes@ == config_spec(self.spec_state().spec_stream_count()),
                value == config_value(bytes@, offset, width as nat, i as nat),
            decreases i,
        {
            i = i - 1;
            let byte: u64 = match offset.checked_add(i) {
                Some(idx) => if idx < 12 { bytes[idx as usize] as u64 } else { 0 },
                None => 0,
            };
            value = value | (byte << (8 * i));
        }
        value
    }

    /// Reset the device's stream and transport state.
    pub fn reset(&mut self)
        ensures
            final(self).spec_state().spec_stream().spec_state() == PcmState::Released,
            final(self).spec_state().spec_reset_pending(),
            final(self).spec_state().spec_capture_enabled() == old(self).spec_state().spec_capture_enabled(),
    {
        self.state.reset();
    }
}

impl Default for VirtioSnd {
    fn default() -> (r: Self)
        ensures r.spec_state().spec_stream().spec_state() == PcmState::Released,
    {
        VirtioSnd::new()
    }
}

/// Create the transport device.
pub fn new() -> (r: VirtioSnd)
    ensures r.spec_state().spec_stream().spec_state() == PcmState::Released, !r.spec_state().spec_capture_enabled(),
{
    VirtioSnd::new()
}

} // verus!
