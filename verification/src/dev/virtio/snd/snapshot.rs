//! Versioned virtio-snd checkpoint state.
//!
//! Host audio handles, descriptor chains and ring contents are not part of the format. A restore
//! recreates the guest-visible stream configuration, drops the ephemeral host buffers, and queues
//! one XRUN for every stream that was running when the checkpoint was taken. A restore that fails
//! leaves the state exactly as it was.
//!
//! Layout (little-endian): magic `WVSND001`, version u16 = 1, flags u16 = 0, capture-enabled
//! bool + 3 reserved, rate mask u64, capture start count u64, lifecycle epoch u64, capture
//! lifecycle epoch u64, two 28-byte stream blocks (state u8, has-params bool, 2 reserved, the
//! 24-byte SET_PARAMS encoding or zeros), the 40-byte playback queue block, the 20-byte capture
//! queue block, event count u32, dropped XRUNs u64, four kick flags, reset-pending bool +
//! 3 reserved: 184 bytes, followed by 8 bytes per pending event.

use vstd::prelude::*;
use super::{
    CAPTURE_STREAM_ID, EVENT_QUEUE, MAX_PCM_BUFFER_BYTES, MAX_PENDING_SND_EVENTS, PCM_FRAME_BYTES,
    SUPPORTED_CAPTURE_PCM_RATE_MASK, SUPPORTED_PCM_RATE_MASK, VIRTIO_SND_EVT_PCM_XRUN,
    VIRTIO_SND_PCM_RATE_48000,
};
use super::pcm::{PcmState, state_index, state_of_index};
use super::wire::{PcmParams, SndEvent, params_valid_for, u32_bytes, u64_bytes, u32_at, u64_at, read_u32};
use super::state::{SndState, playback_bytes, capture_bytes};
use super::pcm::PcmStream;

verus! {

pub const MAGIC: [u8; 8] = [0x57, 0x56, 0x53, 0x4e, 0x44, 0x30, 0x30, 0x31];
pub const VERSION: u16 = 1;
pub const HEADER_LEN: usize = 184;
pub const STREAM_BLOCK_LEN: usize = 28;
pub const PLAYBACK_QUEUE_LEN: usize = 40;
pub const CAPTURE_QUEUE_LEN: usize = 20;
pub const MAX_SNAPSHOT_PENDING_TRANSFERS: u32 = 4096;
pub const OUTPUT_STREAM_OFFSET: usize = 48;
pub const CAPTURE_STREAM_OFFSET: usize = 76;
pub const PLAYBACK_QUEUE_OFFSET: usize = 104;
pub const CAPTURE_QUEUE_OFFSET: usize = 144;
pub const EVENT_COUNT_OFFSET: usize = 164;
pub const DROPPED_XRUNS_OFFSET: usize = 168;
pub const KICKED_OFFSET: usize = 176;
pub const RESET_PENDING_OFFSET: usize = 180;

/// Errors returned when a sound checkpoint is malformed or cannot be represented safely.
#[derive(Debug, Clone, Copy, PartialEq, Eq)]
pub enum SndSnapshotError {
    /// The payload ended before a complete field or record was available.
    Truncated,
    /// The payload is not a virtio-snd snapshot.
    BadMagic,
    /// The payload version is not the one this decoder understands.
    UnsupportedVersion { found: u16, supported: u16 },
    /// Reserved header flags were set.
    ReservedFlags { found: u16 },
    /// A reserved byte or word was non-zero.
    ReservedBytes { field: &'static str, found: u32 },
    /// A boolean field contained a value other than zero or one.
    InvalidBoolean { field: &'static str, value: u8 },
    /// A stream state byte is outside the five-state lifecycle enum.
    InvalidStreamState { stream: u32, state: u8 },
    /// A non-released stream omitted its parameter block.
    MissingParams { stream: u32 },
    /// A released stream carried a parameter block.
    UnexpectedParams { stream: u32 },
    /// A parameter block failed the validation SET_PARAMS applies.
    InvalidParams { stream: u32 },
    /// The advertised rate mask is empty or contains an unsupported rate.
    InvalidRateMask { mask: u64 },
    /// A queue holds more discarded transfers than the decoder accepts.
    TooManyPendingTransfers { stream: u32, found: u32, maximum: u32 },
    /// Queue byte metadata is inconsistent with its transfer count or bound.
    InvalidPendingMetadata { stream: u32 },
    /// Restored events plus XRUN repair would exceed the bounded event queue.
    TooManyEvents { found: usize, maximum: usize },
    /// An event type or stream identifier is not supported by this format.
    InvalidEvent { event: SndEvent },
    /// Extra bytes followed the final event record.
    TrailingBytes,
    /// A count or encoded length could not fit the wire representation.
    LengthOverflow,
    /// The allocator rejected a bounded reservation.
    OutOfMemory,
}

/// The stable code of each error.
pub open spec fn error_code(e: SndSnapshotError) -> u16 {
    match e {
        SndSnapshotError::Truncated => 1,
        SndSnapshotError::BadMagic => 2,
        SndSnapshotError::UnsupportedVersion { .. } => 3,
        SndSnapshotError::ReservedFlags { .. } => 4,
        SndSnapshotError::ReservedBytes { .. } => 5,
        SndSnapshotError::InvalidBoolean { .. } => 6,
        SndSnapshotError::InvalidStreamState { .. } => 7,
        SndSnapshotError::MissingParams { .. } => 8,
        SndSnapshotError::UnexpectedParams { .. } => 9,
        SndSnapshotError::InvalidParams { .. } => 10,
        SndSnapshotError::InvalidRateMask { .. } => 11,
        SndSnapshotError::TooManyPendingTransfers { .. } => 12,
        SndSnapshotError::InvalidPendingMetadata { .. } => 13,
        SndSnapshotError::TooManyEvents { .. } => 14,
        SndSnapshotError::InvalidEvent { .. } => 15,
        SndSnapshotError::TrailingBytes => 16,
        SndSnapshotError::LengthOverflow => 17,
        SndSnapshotError::OutOfMemory => 18,
    }
}

impl SndSnapshotError {
    /// Stable machine-readable error code.
    pub fn code(self) -> (r: u16)
        ensures r == error_code(self),
    {
        match self {
            SndSnapshotError::Truncated => 1,
            SndSnapshotError::BadMagic => 2,
            SndSnapshotError::UnsupportedVersion { .. } => 3,
            SndSnapshotError::ReservedFlags { .. } => 4,
            SndSnapshotError::ReservedBytes { .. } => 5,
            SndSnapshotError::InvalidBoolean { .. } => 6,
            SndSnapshotError::InvalidStreamState { .. } => 7,
            SndSnapshotError::MissingParams { .. } => 8,
            SndSnapshotError::UnexpectedParams { .. } => 9,
            SndSnapshotError::InvalidParams { .. } => 10,
            SndSnapshotError::InvalidRateMask { .. } => 11,
            SndSnapshotError::TooManyPendingTransfers { .. } => 12,
            SndSnapshotError::InvalidPendingMetadata { .. } => 13,
            SndSnapshotError::TooManyEvents { .. } => 14,
            SndSnapshotError::InvalidEvent { .. } => 15,
            SndSnapshotError::TrailingBytes => 16,
            SndSnapshotError::LengthOverflow => 17,
            SndSnapshotError::OutOfMemory => 18,
        }
    }
}

/// The observable effects of restoring a sound checkpoint.
#[derive(Debug, Clone, Copy, PartialEq, Eq, Default)]
pub struct SndRestoreReport {
    /// Always true: host audio rings are ephemeral across a restore.
    pub host_audio_rings_discarded: bool,
    /// Output transfers described by the checkpoint and discarded.
    pub discarded_playback_transfers: u32,
    /// Input transfers described by the checkpoint and discarded.
    pub discarded_capture_transfers: u32,
    /// Guest-visible XRUN events queued to repair running streams.
    pub xrun_events: u32,
}

/// A rate mask a checkpoint may carry: non-empty and within the output rates.
pub open spec fn rate_mask_ok(mask: u64) -> bool {
    mask != 0 && mask & !SUPPORTED_PCM_RATE_MASK == 0
}

/// The first error a stream configuration yields, if any.
pub open spec fn stream_error(stream: u32, state: PcmState, params: Option<PcmParams>, rate_mask: u64, capture_enabled: bool) -> Option<SndSnapshotError> {
    if stream == CAPTURE_STREAM_ID && !capture_enabled {
        if state != PcmState::Released || params is Some {
            Some(SndSnapshotError::InvalidStreamState { stream, state: state_index(state) })
        } else {
            None
        }
    } else {
        match params {
            Some(p) => {
                let valid = if stream == CAPTURE_STREAM_ID {
                    params_valid_for(p, CAPTURE_STREAM_ID, 1, 2) && p.rate == VIRTIO_SND_PCM_RATE_48000
                        && SUPPORTED_CAPTURE_PCM_RATE_MASK & (1u64 << p.rate) != 0
                } else {
                    params_valid_for(p, stream, 2, 2) && p.rate < 64 && rate_mask & (1u64 << p.rate) != 0
                };
                if !valid {
                    Some(SndSnapshotError::InvalidParams { stream })
                } else if state == PcmState::Released {
                    Some(SndSnapshotError::UnexpectedParams { stream })
                } else {
                    None
                }
            },
            None => if state != PcmState::Released { Some(SndSnapshotError::MissingParams { stream }) } else { None },
        }
    }
}

/// The first error pending-queue metadata yields, if any: at most 4096 transfers; bytes zero
/// exactly when the count is; at most 16 MiB per transfer; exactly one period per transfer when
/// the period is known, a whole number of frames otherwise.
pub open spec fn pending_error(stream: u32, count: u32, bytes: u32, period_bytes: Option<u32>) -> Option<SndSnapshotError> {
    if count > MAX_SNAPSHOT_PENDING_TRANSFERS {
        Some(SndSnapshotError::TooManyPendingTransfers { stream, found: count, maximum: MAX_SNAPSHOT_PENDING_TRANSFERS })
    } else if (count == 0) != (bytes == 0) || bytes as int > count as int * MAX_PCM_BUFFER_BYTES as int {
        Some(SndSnapshotError::InvalidPendingMetadata { stream })
    } else {
        match period_bytes {
            Some(pb) => if count as int * pb as int != bytes as int { Some(SndSnapshotError::InvalidPendingMetadata { stream }) } else { None },
            None => if bytes % PCM_FRAME_BYTES != 0 { Some(SndSnapshotError::InvalidPendingMetadata { stream }) } else { None },
        }
    }
}

/// Whether an event may appear in a checkpoint: a PCM XRUN for the output stream, or for the
/// enabled input stream.
pub open spec fn event_ok(e: SndEvent, capture_enabled: bool) -> bool {
    e.event == VIRTIO_SND_EVT_PCM_XRUN && e.data <= CAPTURE_STREAM_ID && !(e.data == CAPTURE_STREAM_ID && !capture_enabled)
}

pub fn validate_rate_mask(mask: u64) -> (r: Result<(), SndSnapshotError>)
    ensures r == (if rate_mask_ok(mask) { Ok(()) } else { Err(SndSnapshotError::InvalidRateMask { mask }) }),
{
    if mask == 0 || mask & !SUPPORTED_PCM_RATE_MASK != 0 {
        return Err(SndSnapshotError::InvalidRateMask { mask });
    }
    Ok(())
}

pub fn validate_stream(stream: u32, state: PcmState, params: Option<PcmParams>, rate_mask: u64, capture_enabled: bool) -> (r: Result<(), SndSnapshotError>)
    ensures r == (match stream_error(stream, state, params, rate_mask, capture_enabled) { Some(e) => Err(e), None => Ok(()) }),
{
    if stream == CAPTURE_STREAM_ID && !capture_enabled {
        if !matches!(state, PcmState::Released) || params.is_some() {
            return Err(SndSnapshotError::InvalidStreamState { stream, state: state.index() });
        }
        return Ok(());
    }
    match params {
        Some(p) => {
            let valid = if stream == CAPTURE_STREAM_ID {
                p.is_valid_for(CAPTURE_STREAM_ID, 1, 2) && p.rate == VIRTIO_SND_PCM_RATE_48000
                    && (SUPPORTED_CAPTURE_PCM_RATE_MASK & (1u64 << p.rate)) != 0
            } else {
                p.is_valid_for(stream, 2, 2) && p.rate < 64 && (rate_mask & (1u64 << p.rate)) != 0
            };
            if !valid {
                return Err(SndSnapshotError::InvalidParams { stream });
            }
            if matches!(state, PcmState::Released) {
                return Err(SndSnapshotError::UnexpectedParams { stream });
            }
        }
        None => {
            if !matches!(state, PcmState::Released) {
                return Err(SndSnapshotError::MissingParams { stream });
            }
        }
    }
    Ok(())
}

pub fn validate_pending_metadata(stream: u32, count: u32, bytes: u32, period_bytes: Option<u32>) -> (r: Result<(), SndSnapshotError>)
    ensures r == (match pending_error(stream, count, bytes, period_bytes) { Some(e) => Err(e), None => Ok(()) }),
{
    if count > MAX_SNAPSHOT_PENDING_TRANSFERS {
        return Err(SndSnapshotError::TooManyPendingTransfers { stream, found: count, maximum: MAX_SNAPSHOT_PENDING_TRANSFERS });
    }
    if (count == 0) != (bytes == 0) || (bytes as u64) > (count as u64) * (MAX_PCM_BUFFER_BYTES as u64) {
        return Err(SndSnapshotError::InvalidPendingMetadata { stream });
    }
    match period_bytes {
        Some(pb) => {
            assert((count as u64) * (pb as u64) <= 0xffff_ffff * 0xffff_ffff) by (nonlinear_arith)
                requires count <= 0xffff_ffff, pb <= 0xffff_ffff;
            let expected = (count as u64) * (pb as u64);
            if expected != bytes as u64 {
                return Err(SndSnapshotError::InvalidPendingMetadata { stream });
            }
        }
        None => {
            if bytes % PCM_FRAME_BYTES != 0 {
                return Err(SndSnapshotError::InvalidPendingMetadata { stream });
            }
        }
    }
    Ok(())
}

pub fn validate_event(event: SndEvent, capture_enabled: bool) -> (r: Result<(), SndSnapshotError>)
    ensures r == (if event_ok(event, capture_enabled) { Ok(()) } else { Err(SndSnapshotError::InvalidEvent { event }) }),
{
    if event.event != VIRTIO_SND_EVT_PCM_XRUN || event.data > CAPTURE_STREAM_ID || (event.data == CAPTURE_STREAM_ID && !capture_enabled) {
        return Err(SndSnapshotError::InvalidEvent { event });
    }
    Ok(())
}


/// The two little-endian bytes of `v`.
pub open spec fn u16_bytes(v: u16) -> Seq<u8> {
    seq![(v & 0xff) as u8, ((v >> 8u16) & 0xff) as u8]
}

/// A boolean byte.
pub open spec fn bool_byte(b: bool) -> u8 {
    if b { 1 } else { 0 }
}

/// A boolean byte followed by three reserved zero bytes.
pub open spec fn bool_word(b: bool) -> Seq<u8> {
    seq![bool_byte(b), 0u8, 0u8, 0u8]
}

/// The 28-byte block of one stream.
pub open spec fn stream_block(st: PcmStream) -> Seq<u8> {
    seq![state_index(st.spec_state()), bool_byte(st.spec_params() is Some), 0u8, 0u8]
        + match st.spec_params() { Some(p) => p.spec_bytes(), None => Seq::new(24, |i: int| 0u8) }
}

/// The encoding of the pending events, in order.
pub open spec fn events_bytes(es: Seq<SndEvent>) -> Seq<u8>
    decreases es.len(),
{
    if es.len() == 0 { Seq::empty() } else { events_bytes(es.drop_last()) + es.last().spec_bytes() }
}

/// The four kick flags as bytes.
pub open spec fn kicked_bytes(k: Seq<bool>) -> Seq<u8> {
    seq![bool_byte(k[0]), bool_byte(k[1]), bool_byte(k[2]), bool_byte(k[3])]
}

/// The identity, counters and both stream blocks of a checkpoint (104 bytes).
pub open spec fn header_a(s: SndState) -> Seq<u8> {
    MAGIC@ + u16_bytes(VERSION) + u16_bytes(0) + bool_word(s.spec_capture_enabled())
        + u64_bytes(s.spec_rate_mask()) + u64_bytes(s.spec_capture_start_count())
        + u64_bytes(s.spec_epoch()) + u64_bytes(s.spec_capture_epoch())
        + stream_block(s.spec_stream()) + stream_block(s.spec_capture_stream())
}

/// `prefix` followed by the queue blocks, event count, dropped XRUNs, kick flags and reset
/// marker (80 bytes).
pub open spec fn with_header_b(prefix: Seq<u8>, s: SndState) -> Seq<u8> {
    prefix + u32_bytes(s.spec_playback().len() as u32) + u32_bytes(playback_bytes(s.spec_playback()))
        + u64_bytes(s.spec_playback_observed()) + bool_word(s.spec_playback_release())
        + bool_word(s.spec_next_xrun() is Some)
        + u64_bytes(match s.spec_next_xrun() { Some(v) => v, None => 0 }) + u64_bytes(s.spec_period_duration())
        + u32_bytes(s.spec_capture().len() as u32) + u32_bytes(capture_bytes(s.spec_capture()))
        + u64_bytes(s.spec_capture_observed()) + bool_word(s.spec_capture_release())
        + u32_bytes(s.spec_events().len() as u32) + u64_bytes(s.spec_dropped())
        + kicked_bytes(s.spec_kicked()) + bool_word(s.spec_reset_pending())
}

/// The checkpoint of `s`.
pub open spec fn snapshot_bytes(s: SndState) -> Seq<u8> {
    with_header_b(header_a(s), s) + events_bytes(s.spec_events())
}

/// The first event from position `i` on that may not appear in a checkpoint.
pub open spec fn first_bad_event(es: Seq<SndEvent>, capture_enabled: bool, i: int) -> Option<SndEvent>
    decreases es.len() - i,
{
    if i < 0 || i >= es.len() {
        None
    } else if !event_ok(es[i], capture_enabled) {
        Some(es[i])
    } else {
        first_bad_event(es, capture_enabled, i + 1)
    }
}

/// The period of a stream's parameters, if any.
pub open spec fn period_of(p: Option<PcmParams>) -> Option<u32> {
    match p { Some(q) => Some(q.period_bytes), None => None }
}

/// The first validation error encoding `s` meets, if any.
pub open spec fn encode_error(s: SndState) -> Option<SndSnapshotError> {
    let mask = s.spec_rate_mask();
    let cap = s.spec_capture_stream();
    if !rate_mask_ok(mask) {
        Some(SndSnapshotError::InvalidRateMask { mask })
    } else if stream_error(0, s.spec_stream().spec_state(), s.spec_stream().spec_params(), mask, true) is Some {
        stream_error(0, s.spec_stream().spec_state(), s.spec_stream().spec_params(), mask, true)
    } else if stream_error(CAPTURE_STREAM_ID, cap.spec_state(), cap.spec_params(), mask, s.spec_capture_enabled()) is Some {
        stream_error(CAPTURE_STREAM_ID, cap.spec_state(), cap.spec_params(), mask, s.spec_capture_enabled())
    } else if !s.spec_capture_enabled() && (cap.spec_state() != PcmState::Released || cap.spec_params() is Some || s.spec_capture().len() != 0) {
        Some(SndSnapshotError::InvalidStreamState { stream: CAPTURE_STREAM_ID, state: state_index(cap.spec_state()) })
    } else if s.spec_playback().len() > u32::MAX || s.spec_capture().len() > u32::MAX {
        Some(SndSnapshotError::LengthOverflow)
    } else if pending_error(0, s.spec_playback().len() as u32, playback_bytes(s.spec_playback()), period_of(s.spec_stream().spec_params())) is Some {
        pending_error(0, s.spec_playback().len() as u32, playback_bytes(s.spec_playback()), period_of(s.spec_stream().spec_params()))
    } else if pending_error(CAPTURE_STREAM_ID, s.spec_capture().len() as u32, capture_bytes(s.spec_capture()), period_of(cap.spec_params())) is Some {
        pending_error(CAPTURE_STREAM_ID, s.spec_capture().len() as u32, capture_bytes(s.spec_capture()), period_of(cap.spec_params()))
    } else if s.spec_events().len() > MAX_PENDING_SND_EVENTS {
        Some(SndSnapshotError::TooManyEvents { found: s.spec_events().len() as usize, maximum: MAX_PENDING_SND_EVENTS })
    } else if first_bad_event(s.spec_events(), s.spec_capture_enabled(), 0) is Some {
        Some(SndSnapshotError::InvalidEvent { event: first_bad_event(s.spec_events(), s.spec_capture_enabled(), 0)->0 })
    } else {
        None
    }
}

pub fn push_u16(out: &mut Vec<u8>, v: u16)
    ensures final(out)@ == old(out)@ + u16_bytes(v),
{
    out.push((v & 0xff) as u8);
    out.push(((v >> 8u16) & 0xff) as u8);
    assert(out@ =~= old(out)@ + u16_bytes(v));
}

pub fn push_u32(out: &mut Vec<u8>, v: u32)
    ensures final(out)@ == old(out)@ + u32_bytes(v),
{
    out.push((v & 0xff) as u8);
    out.push(((v >> 8u32) & 0xff) as u8);
    out.push(((v >> 16u32) & 0xff) as u8);
    out.push(((v >> 24u32) & 0xff) as u8);
    assert(out@ =~= old(out)@ + u32_bytes(v));
}

pub fn push_u64(out: &mut Vec<u8>, v: u64)
    ensures final(out)@ == old(out)@ + u64_bytes(v),
{
    push_u32(out, (v & 0xffff_ffff) as u32);
    push_u32(out, (v >> 32u64) as u32);
    assert(out@ =~= old(out)@ + u64_bytes(v));
}

pub fn push_bool_word(out: &mut Vec<u8>, b: bool)
    ensures final(out)@ == old(out)@ + bool_word(b),
{
    out.push(if b { 1u8 } else { 0u8 });
    out.push(0);
    out.push(0);
    out.push(0);
    assert(out@ =~= old(out)@ + bool_word(b));
}

pub fn push_stream(out: &mut Vec<u8>, st: &PcmStream)
    ensures final(out)@ == old(out)@ + stream_block(*st),
{
    let params = st.params();
    out.push(st.state().index());
    out.push(if params.is_some() { 1u8 } else { 0u8 });
    out.push(0);
    out.push(0);
    match params {
        Some(p) => {
            let b = p.to_bytes();
            let mut k: usize = 0;
            while k < 24
                invariant
                    k <= 24, b@ == p.spec_bytes(), b@.len() == 24,
                    out@ == old(out)@ + seq![state_index(st.spec_state()), 1u8, 0u8, 0u8] + b@.subrange(0, k as int),
                decreases 24 - k,
            {
                out.push(b[k]);
                k += 1;
                assert(out@ =~= old(out)@ + seq![state_index(st.spec_state()), 1u8, 0u8, 0u8] + b@.subrange(0, k as int));
            }
            assert(b@.subrange(0, 24) =~= b@);
        }
        None => {
            let mut k: usize = 0;
            while k < 24
                invariant
                    k <= 24,
                    out@ == old(out)@ + seq![state_index(st.spec_state()), 0u8, 0u8, 0u8] + Seq::new(k as nat, |i: int| 0u8),
                decreases 24 - k,
            {
                out.push(0);
                k += 1;
                assert(out@ =~= old(out)@ + seq![state_index(st.spec_state()), 0u8, 0u8, 0u8] + Seq::new(k as nat, |i: int| 0u8));
            }
        }
    }
    assert(out@ =~= old(out)@ + stream_block(*st));
}


/// A decoded stream block.
#[derive(Debug, Clone, Copy, PartialEq, Eq)]
pub struct DecodedStream {
    pub state: PcmState,
    pub params: Option<PcmParams>,
}

/// A decoded checkpoint, before it is applied.
pub struct DecodedSnd {
    pub capture_enabled: bool,
    pub pcm_rate_mask: u64,
    pub capture_start_count: u64,
    pub lifecycle_epoch: u64,
    pub capture_lifecycle_epoch: u64,
    pub output: DecodedStream,
    pub capture: DecodedStream,
    pub playback_count: u32,
    pub playback_observed_epoch: u64,
    pub capture_count: u32,
    pub capture_observed_epoch: u64,
    pub events: Vec<SndEvent>,
    pub dropped_xruns: u64,
    pub kicked: [bool; 4],
    pub reset_pending: bool,
}

/// The little-endian `u16` at `off`.
pub open spec fn u16_at(s: Seq<u8>, off: int) -> u16 {
    (s[off] as u16) | ((s[off + 1] as u16) << 8u16)
}

/// Decoding the encoding of a `u16` gives it back.
pub proof fn lemma_u16_roundtrip(v: u16)
    ensures u16_at(u16_bytes(v), 0) == v,
{
    assert((((v & 0xff) as u8) as u16) | ((((v >> 8u16) & 0xff) as u8 as u16) << 8u16) == v) by (bit_vector);
}

/// The parameters encoded at `off` (as a SET_PARAMS request).
pub open spec fn params_at(s: Seq<u8>, off: int) -> PcmParams {
    PcmParams {
        stream_id: u32_at(s, off + 4), buffer_bytes: u32_at(s, off + 8), period_bytes: u32_at(s, off + 12),
        features: u32_at(s, off + 16), channels: s[off + 20], format: s[off + 21], rate: s[off + 22], padding: s[off + 23],
    }
}

/// The stream block at `off`, read without validation.
pub open spec fn stream_at(s: Seq<u8>, off: int) -> DecodedStream {
    DecodedStream {
        state: match state_of_index(s[off]) { Some(st) => st, None => PcmState::Released },
        params: if s[off + 1] == 1 { Some(params_at(s, off + 4)) } else { None },
    }
}

/// The `n` events recorded from `off` on.
pub open spec fn events_at(s: Seq<u8>, off: int, n: nat) -> Seq<SndEvent>
    decreases n,
{
    if n == 0 {
        Seq::empty()
    } else {
        events_at(s, off, (n - 1) as nat).push(SndEvent { event: u32_at(s, off + 8 * (n - 1)), data: u32_at(s, off + 8 * (n - 1) + 4) })
    }
}

/// The fields of an accepted checkpoint, read at their fixed offsets.
pub open spec fn decoded_fields(d: DecodedSnd, s: Seq<u8>) -> bool {
    &&& d.capture_enabled == (s[12] == 1)
    &&& d.pcm_rate_mask == u64_at(s, 16)
    &&& d.capture_start_count == u64_at(s, 24)
    &&& d.lifecycle_epoch == u64_at(s, 32)
    &&& d.capture_lifecycle_epoch == u64_at(s, 40)
    &&& d.output == stream_at(s, 48)
    &&& d.capture == stream_at(s, 76)
    &&& d.playback_count == u32_at(s, 104)
    &&& d.playback_observed_epoch == u64_at(s, 112)
    &&& d.capture_count == u32_at(s, 144)
    &&& d.capture_observed_epoch == u64_at(s, 152)
    &&& d.events@ == events_at(s, 184, u32_at(s, 164) as nat)
    &&& d.dropped_xruns == u64_at(s, 168)
    &&& d.kicked@ == seq![s[176] == 1, s[177] == 1, s[178] == 1, s[179] == 1]
    &&& d.reset_pending == (s[180] == 1)
}

/// The payload is a well-formed checkpoint frame: the magic, version 1, no flags, and exactly
/// one 8-byte record per counted event after the 184-byte header.
pub open spec fn frame_ok(s: Seq<u8>) -> bool {
    &&& s.len() >= 184
    &&& s.subrange(0, 8) == MAGIC@
    &&& u16_at(s, 8) == VERSION
    &&& u16_at(s, 10) == 0
    &&& s.len() == 184 + 8 * u32_at(s, 164)
}

fn read_u16_at(b: &[u8], off: usize) -> (r: u16)
    requires off + 2 <= b@.len(),
    ensures r == u16_at(b@, off as int),
{
    (b[off] as u16) | ((b[off + 1] as u16) << 8u16)
}

pub(crate) fn read_u32_at(b: &[u8], off: usize) -> (r: u32)
    requires off + 4 <= b@.len(),
    ensures r == u32_at(b@, off as int),
{
    (b[off] as u32) | ((b[off + 1] as u32) << 8u32) | ((b[off + 2] as u32) << 16u32) | ((b[off + 3] as u32) << 24u32)
}

pub(crate) fn read_u64_at(b: &[u8], off: usize) -> (r: u64)
    requires off + 8 <= b@.len(),
    ensures r == u64_at(b@, off as int),
{
    let n = b.len();
    (read_u32_at(b, off) as u64) | ((read_u32_at(b, off + 4) as u64) << 32u64)
}

fn read_bool_at(b: &[u8], off: usize, field: &'static str) -> (r: Result<bool, SndSnapshotError>)
    requires off < b@.len(),
    ensures
        b@[off as int] <= 1 ==> r == Ok::<bool, SndSnapshotError>(b@[off as int] == 1),
        b@[off as int] > 1 ==> r == Err::<bool, SndSnapshotError>(SndSnapshotError::InvalidBoolean { field, value: b@[off as int] }),
{
    let v = b[off];
    if v == 0 {
        Ok(false)
    } else if v == 1 {
        Ok(true)
    } else {
        Err(SndSnapshotError::InvalidBoolean { field, value: v })
    }
}

fn reserved_at(b: &[u8], off: usize, len: usize, field: &'static str) -> (r: Result<(), SndSnapshotError>)
    requires off + len <= b@.len(),
    ensures
        r is Ok <==> forall|i: int| off <= i < off + len ==> b@[i] == 0,
        match reserved_err(b@, off as int, len as nat, field) {
            Some(e) => r == Err::<(), SndSnapshotError>(e),
            None => r == Ok::<(), SndSnapshotError>(()),
        },
{
    let n = b.len();
    let mut k: usize = 0;
    let mut any = false;
    while k < len
        invariant
            k <= len, off + len <= b@.len(), n == b@.len(),
            any == exists|i: int| off <= i < off + k && b@[i] != 0,
        decreases len - k,
    {
        if b[off + k] != 0 {
            any = true;
        }
        k += 1;
    }
    if any {
        let mut found: u32 = 0;
        let mut j: usize = 0;
        while j < len
            invariant j <= len, off + len <= b@.len(), n == b@.len(),
                found == reserved_found(b@, off as int, j as nat),
            decreases len - j,
        {
            let shifted: u32 = if found > u32::MAX / 256 { u32::MAX } else { found * 256 };
            found = shifted.saturating_add(b[off + j] as u32);
            j += 1;
        }
        return Err(SndSnapshotError::ReservedBytes { field, found });
    }
    Ok(())
}


/// The value a `ReservedBytes` refusal reports for the `len` bytes from `off`: the bytes read
/// as a big-endian number, saturating at `u32::MAX`.
pub open spec fn reserved_found(s: Seq<u8>, off: int, len: nat) -> u32
    decreases len,
{
    if len == 0 {
        0
    } else {
        let f = reserved_found(s, off, (len - 1) as nat);
        let sh: u32 = if f > u32::MAX / 256 { u32::MAX } else { (f * 256) as u32 };
        if sh + s[off + len - 1] > u32::MAX { u32::MAX } else { (sh + s[off + len - 1]) as u32 }
    }
}

/// The refusal of a non-boolean byte at `off`.
pub open spec fn bool_err(s: Seq<u8>, off: int, field: &'static str) -> Option<SndSnapshotError> {
    if s[off] > 1 { Some(SndSnapshotError::InvalidBoolean { field, value: s[off] }) } else { None }
}

/// The refusal of nonzero padding in the `len` bytes from `off`.
pub open spec fn reserved_err(s: Seq<u8>, off: int, len: nat, field: &'static str) -> Option<SndSnapshotError> {
    if forall|i: int| off <= i < off + len ==> s[i] == 0 {
        None
    } else {
        Some(SndSnapshotError::ReservedBytes { field, found: reserved_found(s, off, len) })
    }
}

/// The first of two refusals.
pub open spec fn first_err(a: Option<SndSnapshotError>, b: Option<SndSnapshotError>) -> Option<SndSnapshotError> {
    if a is Some { a } else { b }
}

/// The first refusal among the event records `e..count`: a record past the end of `s`, or an
/// event not allowed.
pub open spec fn events_error(s: Seq<u8>, count: nat, capture_enabled: bool, e: nat) -> Option<SndSnapshotError>
    decreases count - e,
{
    if e >= count {
        None
    } else if 184 + 8 * e + 8 > s.len() {
        Some(SndSnapshotError::Truncated)
    } else if !event_ok(event_record(s, e as int), capture_enabled) {
        Some(SndSnapshotError::InvalidEvent { event: event_record(s, e as int) })
    } else {
        events_error(s, count, capture_enabled, e + 1)
    }
}

/// The refusals of the fixed header fields after the version and flags, in order.
pub open spec fn header_fields_error(s: Seq<u8>) -> Option<SndSnapshotError> {
    first_err(bool_err(s, 12, "capture_enabled"),
    first_err(reserved_err(s, 13, 3, "capture_enabled_reserved"),
    first_err(if rate_mask_ok(u64_at(s, 16)) { None } else { Some(SndSnapshotError::InvalidRateMask { mask: u64_at(s, 16) }) },
    first_err(stream_block_error(s, 48, 0),
    first_err(stream_block_error(s, 76, CAPTURE_STREAM_ID),
    first_err(pending_error(0, u32_at(s, 104), u32_at(s, 108), None),
    first_err(bool_err(s, 120, "playback_release_pending"),
    first_err(reserved_err(s, 121, 3, "playback_release_reserved"),
    first_err(bool_err(s, 124, "playback_next_xrun_present"),
    first_err(reserved_err(s, 125, 3, "playback_next_xrun_reserved"),
    first_err(if s[124] != 1 && u64_at(s, 128) != 0 { Some(SndSnapshotError::InvalidPendingMetadata { stream: 0 }) } else { None },
    first_err(pending_error(CAPTURE_STREAM_ID, u32_at(s, 144), u32_at(s, 148), None),
    first_err(bool_err(s, 160, "capture_release_pending"),
    first_err(reserved_err(s, 161, 3, "capture_release_reserved"),
    first_err(bool_err(s, 176, "control_kicked"),
    first_err(bool_err(s, 177, "event_kicked"),
    first_err(bool_err(s, 178, "tx_kicked"),
    first_err(bool_err(s, 179, "rx_kicked"),
    first_err(bool_err(s, 180, "reset_pending"),
    reserved_err(s, 181, 3, "reset_pending_reserved"))))))))))))))))))))
}

/// The refusals after the fixed fields, in order: the event count and records, trailing bytes,
/// each stream's configuration, each queue's metadata against its period, and a disabled input
/// stream that is not released and empty.
pub open spec fn body_error(s: Seq<u8>) -> Option<SndSnapshotError> {
    let capture_enabled = s[12] == 1;
    let mask = u64_at(s, 16);
    let out = stream_at(s, 48);
    let cap = stream_at(s, 76);
    let count = u32_at(s, 164);
    if count > MAX_PENDING_SND_EVENTS {
        Some(SndSnapshotError::TooManyEvents { found: count as usize, maximum: MAX_PENDING_SND_EVENTS })
    } else {
        first_err(events_error(s, count as nat, capture_enabled, 0),
        first_err(if s.len() != 184 + 8 * count { Some(SndSnapshotError::TrailingBytes) } else { None },
        first_err(stream_error(0, out.state, out.params, mask, true),
        first_err(stream_error(CAPTURE_STREAM_ID, cap.state, cap.params, mask, capture_enabled),
        first_err(pending_error(0, u32_at(s, 104), u32_at(s, 108), period_of(out.params)),
        first_err(pending_error(CAPTURE_STREAM_ID, u32_at(s, 144), u32_at(s, 148), period_of(cap.params)),
        if !capture_enabled && (cap.state != PcmState::Released || cap.params is Some || u32_at(s, 144) != 0 || u32_at(s, 148) != 0) {
            Some(SndSnapshotError::InvalidStreamState { stream: CAPTURE_STREAM_ID, state: state_index(cap.state) })
        } else {
            None
        }))))))
    }
}

/// The error [`decode`] refuses the checkpoint `s` with, in the order of its checks; `None` when
/// it accepts it.
pub open spec fn decode_error(s: Seq<u8>) -> Option<SndSnapshotError> {
    if s.len() < 184 {
        Some(SndSnapshotError::Truncated)
    } else if s.subrange(0, 8) != MAGIC@ {
        Some(SndSnapshotError::BadMagic)
    } else if u16_at(s, 8) != VERSION {
        Some(SndSnapshotError::UnsupportedVersion { found: u16_at(s, 8), supported: VERSION })
    } else if u16_at(s, 10) != 0 {
        Some(SndSnapshotError::ReservedFlags { found: u16_at(s, 10) })
    } else {
        first_err(header_fields_error(s), body_error(s))
    }
}

/// Byte `off` of `s` encodes a boolean (0 or 1).
pub open spec fn bool_ok(s: Seq<u8>, off: int) -> bool {
    s[off] <= 1
}

/// The `len` bytes of `s` from `off` on are all zero.
pub open spec fn zeros(s: Seq<u8>, off: int, len: int) -> bool {
    forall|i: int| off <= i < off + len ==> s[i] == 0
}

/// The 28-byte stream block at `off` decodes: a known state, a boolean params flag, zero
/// padding, a SET_PARAMS record when params are present, and params exactly when the stream is
/// not released.
pub open spec fn stream_block_ok(s: Seq<u8>, off: int) -> bool {
    &&& state_of_index(s[off]) is Some
    &&& bool_ok(s, off + 1)
    &&& zeros(s, off + 2, 2)
    &&& (s[off + 1] == 1 ==> u32_at(s, off + 4) == super::VIRTIO_SND_R_PCM_SET_PARAMS)
    &&& (state_of_index(s[off]) == Some(PcmState::Released) <==> s[off + 1] != 1)
}

/// The error a stream block at `off` of stream `stream` is refused with, checked in order; `None`
/// where it decodes.
pub open spec fn stream_block_error(s: Seq<u8>, off: int, stream: u32) -> Option<SndSnapshotError> {
    if state_of_index(s[off]) is None {
        Some(SndSnapshotError::InvalidStreamState { stream, state: s[off] })
    } else if !bool_ok(s, off + 1) {
        Some(SndSnapshotError::InvalidBoolean { field: "stream_has_params", value: s[off + 1] })
    } else if !zeros(s, off + 2, 2) {
        Some(SndSnapshotError::ReservedBytes { field: "stream_reserved", found: reserved_found(s, off + 2, 2) })
    } else if s[off + 1] == 1 && u32_at(s, off + 4) != super::VIRTIO_SND_R_PCM_SET_PARAMS {
        Some(SndSnapshotError::InvalidParams { stream })
    } else if state_of_index(s[off]) == Some(PcmState::Released) {
        if s[off + 1] == 1 { Some(SndSnapshotError::UnexpectedParams { stream }) } else { None }
    } else if s[off + 1] != 1 {
        Some(SndSnapshotError::MissingParams { stream })
    } else {
        None
    }
}

/// The event record `i` of a checkpoint.
pub open spec fn event_record(s: Seq<u8>, i: int) -> SndEvent {
    SndEvent { event: u32_at(s, 184 + 8 * i), data: u32_at(s, 184 + 8 * i + 4) }
}

/// The payload `s` is a checkpoint [`decode`] accepts: a well-formed frame whose every field
/// passes its check, each stream and queue record is valid, at most 256 allowed events, and a
/// disabled input stream is released and empty.
pub open spec fn snapshot_ok(s: Seq<u8>) -> bool {
    let capture_enabled = s[12] == 1;
    let mask = u64_at(s, 16);
    let out = stream_at(s, 48);
    let cap = stream_at(s, 76);
    &&& frame_ok(s)
    &&& bool_ok(s, 12) && zeros(s, 13, 3)
    &&& rate_mask_ok(mask)
    &&& stream_block_ok(s, 48) && stream_block_ok(s, 76)
    &&& pending_error(0, u32_at(s, 104), u32_at(s, 108), None) is None
    &&& bool_ok(s, 120) && zeros(s, 121, 3) && bool_ok(s, 124) && zeros(s, 125, 3)
    &&& (s[124] != 1 ==> u64_at(s, 128) == 0)
    &&& pending_error(CAPTURE_STREAM_ID, u32_at(s, 144), u32_at(s, 148), None) is None
    &&& bool_ok(s, 160) && zeros(s, 161, 3)
    &&& bool_ok(s, 176) && bool_ok(s, 177) && bool_ok(s, 178) && bool_ok(s, 179) && bool_ok(s, 180)
    &&& zeros(s, 181, 3)
    &&& u32_at(s, 164) <= MAX_PENDING_SND_EVENTS
    &&& forall|i: int| 0 <= i < u32_at(s, 164) ==> event_ok(#[trigger] event_record(s, i), capture_enabled)
    &&& stream_error(0, out.state, out.params, mask, true) is None
    &&& stream_error(CAPTURE_STREAM_ID, cap.state, cap.params, mask, capture_enabled) is None
    &&& pending_error(0, u32_at(s, 104), u32_at(s, 108), period_of(out.params)) is None
    &&& pending_error(CAPTURE_STREAM_ID, u32_at(s, 144), u32_at(s, 148), period_of(cap.params)) is None
    &&& (capture_enabled || (cap.state == PcmState::Released && cap.params is None && u32_at(s, 144) == 0 && u32_at(s, 148) == 0))
}

fn decode_stream(b: &[u8], off: usize, stream: u32) -> (r: Result<DecodedStream, SndSnapshotError>)
    requires off + 28 <= b@.len(),
    ensures
        r is Ok <==> stream_block_ok(b@, off as int),
        r matches Ok(d) ==> d == stream_at(b@, off as int) && (d.state == PcmState::Released <==> d.params is None),
        stream_block_error(b@, off as int, stream) matches Some(e) ==> r == Err::<DecodedStream, SndSnapshotError>(e),
        stream_block_error(b@, off as int, stream) is None ==> r is Ok,
{
    let n = b.len();
    let state = match PcmState::from_index(b[off]) {
        Some(st) => st,
        None => return Err(SndSnapshotError::InvalidStreamState { stream, state: b[off] }),
    };
    let has_params = read_bool_at(b, off + 1, "stream_has_params")?;
    reserved_at(b, off + 2, 2, "stream_reserved")?;
    let params = if has_params {
        if read_u32_at(b, off + 4) != super::VIRTIO_SND_R_PCM_SET_PARAMS {
            return Err(SndSnapshotError::InvalidParams { stream });
        }
        Some(PcmParams {
            stream_id: read_u32_at(b, off + 8),
            buffer_bytes: read_u32_at(b, off + 12),
            period_bytes: read_u32_at(b, off + 16),
            features: read_u32_at(b, off + 20),
            channels: b[off + 24],
            format: b[off + 25],
            rate: b[off + 26],
            padding: b[off + 27],
        })
    } else {
        None
    };
    if matches!(state, PcmState::Released) {
        if params.is_some() {
            return Err(SndSnapshotError::UnexpectedParams { stream });
        }
    } else if params.is_none() {
        return Err(SndSnapshotError::MissingParams { stream });
    }
    Ok(DecodedStream { state, params })
}

/// Whether a checkpoint with these decoded parts is consistent: valid rate mask and streams,
/// exact queue metadata, a released empty input stream unless it is enabled, and at most 256
/// allowed events.
pub open spec fn decoded_consistent(d: DecodedSnd, s: Seq<u8>) -> bool {
    &&& rate_mask_ok(d.pcm_rate_mask)
    &&& stream_error(0, d.output.state, d.output.params, d.pcm_rate_mask, true) is None
    &&& stream_error(CAPTURE_STREAM_ID, d.capture.state, d.capture.params, d.pcm_rate_mask, d.capture_enabled) is None
    &&& pending_error(0, d.playback_count, u32_at(s, 108), period_of(d.output.params)) is None
    &&& pending_error(CAPTURE_STREAM_ID, d.capture_count, u32_at(s, 148), period_of(d.capture.params)) is None
    &&& d.events@.len() <= MAX_PENDING_SND_EVENTS
    &&& forall|i: int| 0 <= i < d.events@.len() ==> event_ok(#[trigger] d.events@[i], d.capture_enabled)
    &&& (d.output.state == PcmState::Released <==> d.output.params is None)
    &&& (d.capture.state == PcmState::Released <==> d.capture.params is None)
}

/// Decode a checkpoint without applying it.
#[verifier::rlimit(60)]
#[verifier::loop_isolation(false)]
pub fn decode(payload: &[u8]) -> (r: Result<DecodedSnd, SndSnapshotError>)
    ensures
        payload@.len() < 184 ==> r == Err::<DecodedSnd, SndSnapshotError>(SndSnapshotError::Truncated),
        payload@.len() >= 184 && payload@.subrange(0, 8) != MAGIC@ ==> r == Err::<DecodedSnd, SndSnapshotError>(SndSnapshotError::BadMagic),
        payload@.len() >= 184 && payload@.subrange(0, 8) == MAGIC@ && u16_at(payload@, 8) != VERSION
            ==> r == Err::<DecodedSnd, SndSnapshotError>(SndSnapshotError::UnsupportedVersion { found: u16_at(payload@, 8), supported: VERSION }),
        decode_error(payload@) matches Some(e) ==> r == Err::<DecodedSnd, SndSnapshotError>(e),
        decode_error(payload@) is None ==> r is Ok,
        r is Ok <==> snapshot_ok(payload@),
        r != Err::<DecodedSnd, SndSnapshotError>(SndSnapshotError::OutOfMemory),
        r matches Ok(d) ==> frame_ok(payload@) && decoded_fields(d, payload@) && decoded_consistent(d, payload@)
            && d.events@.len() == u32_at(payload@, 164),
{
    let n = payload.len();
    if n < 184 {
        return Err(SndSnapshotError::Truncated);
    }
    let mut m: usize = 0;
    while m < 8
        invariant m <= 8, n == payload@.len(), n >= 184,
            forall|i: int| 0 <= i < m ==> payload@[i] == MAGIC@[i],
        decreases 8 - m,
    {
        if payload[m] != MAGIC[m] {
            assert(payload@.subrange(0, 8)[m as int] != MAGIC@[m as int]);
            return Err(SndSnapshotError::BadMagic);
        }
        m += 1;
    }
    assert(payload@.subrange(0, 8) =~= MAGIC@);
    let version = read_u16_at(payload, 8);
    if version != VERSION {
        return Err(SndSnapshotError::UnsupportedVersion { found: version, supported: VERSION });
    }
    let flags = read_u16_at(payload, 10);
    if flags != 0 {
        return Err(SndSnapshotError::ReservedFlags { found: flags });
    }
    let capture_enabled = read_bool_at(payload, 12, "capture_enabled")?;
    reserved_at(payload, 13, 3, "capture_enabled_reserved")?;
    let pcm_rate_mask = read_u64_at(payload, 16);
    validate_rate_mask(pcm_rate_mask)?;
    let capture_start_count = read_u64_at(payload, 24);
    let lifecycle_epoch = read_u64_at(payload, 32);
    let capture_lifecycle_epoch = read_u64_at(payload, 40);
    let output = decode_stream(payload, 48, 0)?;
    let capture = decode_stream(payload, 76, CAPTURE_STREAM_ID)?;
    let playback_count = read_u32_at(payload, 104);
    let playback_bytes = read_u32_at(payload, 108);
    validate_pending_metadata(0, playback_count, playback_bytes, None)?;
    let playback_observed_epoch = read_u64_at(payload, 112);
    read_bool_at(payload, 120, "playback_release_pending")?;
    reserved_at(payload, 121, 3, "playback_release_reserved")?;
    let next_present = read_bool_at(payload, 124, "playback_next_xrun_present")?;
    reserved_at(payload, 125, 3, "playback_next_xrun_reserved")?;
    let next_xrun_ns = read_u64_at(payload, 128);
    if !next_present && next_xrun_ns != 0 {
        return Err(SndSnapshotError::InvalidPendingMetadata { stream: 0 });
    }
    let capture_count = read_u32_at(payload, 144);
    let capture_bytes = read_u32_at(payload, 148);
    validate_pending_metadata(CAPTURE_STREAM_ID, capture_count, capture_bytes, None)?;
    let capture_observed_epoch = read_u64_at(payload, 152);
    read_bool_at(payload, 160, "capture_release_pending")?;
    reserved_at(payload, 161, 3, "capture_release_reserved")?;
    let event_count = read_u32_at(payload, 164);
    let dropped_xruns = read_u64_at(payload, 168);
    let k0 = read_bool_at(payload, 176, "control_kicked")?;
    let k1 = read_bool_at(payload, 177, "event_kicked")?;
    let k2 = read_bool_at(payload, 178, "tx_kicked")?;
    let k3 = read_bool_at(payload, 179, "rx_kicked")?;
    let reset_pending = read_bool_at(payload, 180, "reset_pending")?;
    reserved_at(payload, 181, 3, "reset_pending_reserved")?;
    if event_count as usize > MAX_PENDING_SND_EVENTS {
        return Err(SndSnapshotError::TooManyEvents { found: event_count as usize, maximum: MAX_PENDING_SND_EVENTS });
    }
    let mut events: Vec<SndEvent> = Vec::new();
    let mut e: u32 = 0;
    while e < event_count
        invariant
            e <= event_count, event_count <= 256, n == payload@.len(),
            events@ == events_at(payload@, 184, e as nat),
            events@.len() == e,
            forall|i: int| 0 <= i < events@.len() ==> event_ok(#[trigger] events@[i], capture_enabled),
            forall|i: int| 0 <= i < e ==> event_ok(#[trigger] event_record(payload@, i), capture_enabled),
            events_error(payload@, event_count as nat, capture_enabled, 0) == events_error(payload@, event_count as nat, capture_enabled, e as nat),
            capture_enabled == (payload@[12] == 1),
            n >= 184 + 8 * e,
        decreases event_count - e,
    {
        let off: usize = 184 + 8 * (e as usize);
        if off > n || n - off < 8 {
            return Err(SndSnapshotError::Truncated);
        }
        let ev = SndEvent { event: read_u32_at(payload, off), data: read_u32_at(payload, off + 4) };
        assert(ev == event_record(payload@, e as int));
        assert(capture_enabled == (payload@[12] == 1));
        validate_event(ev, capture_enabled)?;
        events.push(ev);
        e += 1;
    }
    if n != 184 + 8 * (event_count as usize) {
        return Err(SndSnapshotError::TrailingBytes);
    }
    validate_stream(0, output.state, output.params, pcm_rate_mask, true)?;
    validate_stream(CAPTURE_STREAM_ID, capture.state, capture.params, pcm_rate_mask, capture_enabled)?;
    let out_period = match output.params { Some(p) => Some(p.period_bytes), None => None };
    let cap_period = match capture.params { Some(p) => Some(p.period_bytes), None => None };
    validate_pending_metadata(0, playback_count, playback_bytes, out_period)?;
    validate_pending_metadata(CAPTURE_STREAM_ID, capture_count, capture_bytes, cap_period)?;
    if !capture_enabled && (!matches!(capture.state, PcmState::Released) || capture.params.is_some()
        || capture_count != 0 || capture_bytes != 0) {
        return Err(SndSnapshotError::InvalidStreamState { stream: CAPTURE_STREAM_ID, state: capture.state.index() });
    }
    let kicked = [k0, k1, k2, k3];
    assert(kicked@ =~= seq![payload@[176] == 1, payload@[177] == 1, payload@[178] == 1, payload@[179] == 1]);
    let d = DecodedSnd {
        capture_enabled, pcm_rate_mask, capture_start_count, lifecycle_epoch, capture_lifecycle_epoch,
        output, capture, playback_count, playback_observed_epoch, capture_count, capture_observed_epoch,
        events, dropped_xruns, kicked, reset_pending,
    };
    Ok(d)
}

} // verus!
