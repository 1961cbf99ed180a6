use wasm_vm_core::dev::virtio::snd::state::pacing::frame_duration_ns;
use wasm_vm_core::dev::virtio::snd::{
    AudioCaptureError, CaptureReport, PcmParams, PcmStatus, PlaybackReport, SndEvent, SndState, SndStatus,
    CAPTURE_STREAM_ID, VIRTIO_SND_R_PCM_PREPARE, VIRTIO_SND_R_PCM_RELEASE, VIRTIO_SND_R_PCM_START,
    VIRTIO_SND_R_PCM_STOP, VIRTIO_SND_S_OK,
};

fn status(response: &[u8]) -> u32 {
    u32::from_le_bytes([response[0], response[1], response[2], response[3]])
}

fn lifecycle_request(code: u32, stream_id: u32) -> [u8; 8] {
    let mut request = [0; 8];
    request[..4].copy_from_slice(&code.to_le_bytes());
    request[4..].copy_from_slice(&stream_id.to_le_bytes());
    request
}

fn params_for(stream_id: u32) -> PcmParams {
    PcmParams {
        stream_id,
        channels: if stream_id == CAPTURE_STREAM_ID { 1 } else { 2 },
        ..PcmParams::default()
    }
}

fn configure_running(state: &mut SndState, stream_id: u32) {
    assert_eq!(status(&state.handle_control(&params_for(stream_id).to_bytes())), VIRTIO_SND_S_OK);
    assert_eq!(status(&state.handle_control(&lifecycle_request(VIRTIO_SND_R_PCM_PREPARE, stream_id))), VIRTIO_SND_S_OK);
    assert_eq!(status(&state.handle_control(&lifecycle_request(VIRTIO_SND_R_PCM_START, stream_id))), VIRTIO_SND_S_OK);
}

fn output_transfer(stream_id: u32, pcm_bytes: usize) -> Vec<u8> {
    let mut bytes = stream_id.to_le_bytes().to_vec();
    bytes.extend(std::iter::repeat(0x11).take(pcm_bytes));
    bytes
}

// One 4096-byte stereo S16 period at 48 kHz: 1024 frames.
const PERIOD_NS: u64 = 21_333_334;

#[test]
fn frame_duration_rounds_up_to_the_next_nanosecond() {
    assert_eq!(frame_duration_ns(1024, 48_000), PERIOD_NS);
    assert_eq!(frame_duration_ns(1, 48_000), 20_834);
    assert_eq!(frame_duration_ns(441, 44_100), 10_000_000);
    assert_eq!(frame_duration_ns(0, 44_100), 0);
    assert_eq!(frame_duration_ns(usize::MAX, 48_000), u64::MAX / 48_000);
}

#[test]
fn well_formed_output_transfer_is_admitted_back_to_back() {
    let mut state = SndState::new();
    configure_running(&mut state, 0);
    let params = params_for(0);
    let first = state
        .decode_transfer(&output_transfer(0, 4096), 8, params, 48_000, 1_000)
        .expect("one period is admitted");
    assert_eq!(first.samples, 2048);
    assert_eq!(first.sample_rate_hz, 48_000);
    assert_eq!(first.duration_ns, PERIOD_NS);
    assert_eq!(first.deadline_ns, 1_000 + PERIOD_NS);
    assert!(state.enqueue_playback(first.samples, first.sample_rate_hz, first.duration_ns, first.deadline_ns));
    let second = state
        .decode_transfer(&output_transfer(0, 4096), 16, params, 48_000, 5_000)
        .expect("a second period is admitted");
    assert_eq!(second.deadline_ns, 1_000 + 2 * PERIOD_NS);
}

#[test]
fn malformed_output_transfers_are_refused() {
    let mut state = SndState::new();
    configure_running(&mut state, 0);
    let params = params_for(0);
    assert_eq!(state.decode_transfer(&output_transfer(0, 4096), 7, params, 48_000, 0), None);
    assert_eq!(state.decode_transfer(&output_transfer(1, 4096), 8, params, 48_000, 0), None);
    assert_eq!(state.decode_transfer(&output_transfer(0, 4092), 8, params, 48_000, 0), None);
    assert_eq!(state.decode_transfer(&output_transfer(0, 0), 8, params, 48_000, 0), None);
    assert_eq!(state.decode_transfer(&[0, 0, 0], 8, params, 48_000, 0), None);
    assert_eq!(state.decode_transfer(&output_transfer(0, 65_536 + 4), 8, params, 48_000, 0), None);
}

#[test]
fn capture_buffers_need_a_stream_one_header_and_room_for_a_period() {
    let mut state = SndState::new();
    state.set_capture_enabled(true);
    configure_running(&mut state, CAPTURE_STREAM_ID);
    let params = params_for(CAPTURE_STREAM_ID);
    let header = CAPTURE_STREAM_ID.to_le_bytes();
    let held = state
        .decode_capture_transfer(&header, 4096 + 8, params, 48_000, 100)
        .expect("one mono period fits");
    assert_eq!(held.frame_count, 2048);
    assert_eq!(held.channels, 1);
    assert_eq!(held.period_bytes, 4096);
    assert_eq!(held.duration_ns, frame_duration_ns(2048, 48_000));
    assert_eq!(held.deadline_ns, 100 + held.duration_ns);
    assert_eq!(state.decode_capture_transfer(&header, 4096 + 7, params, 48_000, 100), None);
    assert_eq!(state.decode_capture_transfer(&0u32.to_le_bytes(), 4096 + 8, params, 48_000, 100), None);
    assert_eq!(state.decode_capture_transfer(&[1, 0, 0, 0, 0], 4096 + 8, params, 48_000, 100), None);
}

#[test]
fn start_reschedules_queued_transfers_and_arms_the_xrun_clock() {
    let mut state = SndState::new();
    configure_running(&mut state, 0);
    assert!(state.enqueue_playback(2048, 48_000, 10, 999));
    assert!(state.enqueue_playback(2048, 48_000, 20, 999));
    state.sync_playback_lifecycle(1_000);
    let report = state.finish_report(PlaybackReport::default());
    assert_eq!(report.next_deadline_ns, Some(1_010));
    assert_eq!(report.pending_bytes, 8192);
    assert_eq!(report.latency_bytes, 8192);
    assert_eq!(state.take_ready_playback(1_009), None);
    let head = state.take_ready_playback(1_010).expect("head is due");
    assert_eq!(head.deadline_ns, 1_010);
    let next = state.take_ready_playback(u64::MAX).expect("second is due");
    assert_eq!(next.deadline_ns, 1_030);
    // A second sync in the same lifecycle epoch changes nothing.
    assert!(state.enqueue_playback(2048, 48_000, 5, 7));
    state.sync_playback_lifecycle(50_000);
    assert_eq!(state.take_ready_playback(7).map(|t| t.deadline_ns), Some(7));
}

#[test]
fn stop_parks_the_queue() {
    let mut state = SndState::new();
    configure_running(&mut state, 0);
    state.sync_playback_lifecycle(0);
    assert!(state.enqueue_playback(2048, 48_000, 10, 10));
    assert_eq!(status(&state.handle_control(&lifecycle_request(VIRTIO_SND_R_PCM_STOP, 0))), VIRTIO_SND_S_OK);
    state.sync_playback_lifecycle(5);
    assert_eq!(state.take_ready_playback(u64::MAX - 1), None);
    assert_eq!(state.finish_report(PlaybackReport::default()).next_deadline_ns, Some(u64::MAX));
}

#[test]
fn missed_periods_become_bounded_xrun_events() {
    let mut state = SndState::new();
    configure_running(&mut state, 0);
    state.sync_playback_lifecycle(0);
    let mut report = PlaybackReport::default();
    // Before the first deadline nothing is missed.
    state.enqueue_missed_xruns(PERIOD_NS - 1, &mut report);
    assert_eq!(state.pending_event_count(), 0);
    // Three periods have ended by the middle of the third one after the deadline.
    state.enqueue_missed_xruns(PERIOD_NS + 2 * PERIOD_NS + 5, &mut report);
    assert_eq!(report.xrun_events, 3);
    assert_eq!(state.pending_event_count(), 3);
    assert_eq!(state.next_event(), Some(SndEvent::pcm_xrun(0)));
    assert_eq!(state.dropped_xrun_events(), 0);
    // The next deadline moved past the missed periods.
    state.enqueue_missed_xruns(4 * PERIOD_NS - 1, &mut report);
    assert_eq!(state.pending_event_count(), 3);
    state.enqueue_missed_xruns(4 * PERIOD_NS, &mut report);
    assert_eq!(state.pending_event_count(), 4);
}

#[test]
fn missed_periods_beyond_the_event_budget_are_dropped() {
    let mut state = SndState::new();
    configure_running(&mut state, 0);
    state.sync_playback_lifecycle(0);
    let mut report = PlaybackReport::default();
    state.enqueue_missed_xruns(PERIOD_NS + 299 * PERIOD_NS, &mut report);
    assert_eq!(state.pending_event_count(), 256);
    assert_eq!(state.dropped_xrun_events(), 44);
    assert_eq!(report.xrun_events, 256);
}

#[test]
fn refresh_schedules_the_next_xrun_after_the_queue() {
    let mut state = SndState::new();
    configure_running(&mut state, 0);
    state.refresh_xrun_schedule(100, 50);
    let mut report = PlaybackReport::default();
    state.enqueue_missed_xruns(149, &mut report);
    assert_eq!(state.pending_event_count(), 0);
    state.enqueue_missed_xruns(150, &mut report);
    assert_eq!(state.pending_event_count(), 1);
}

#[test]
fn completions_report_status_latency_and_counts() {
    let mut state = SndState::new();
    configure_running(&mut state, 0);
    assert!(state.enqueue_playback(2048, 48_000, 10, 10));
    assert!(state.enqueue_playback(2048, 48_000, 10, 20));
    let head = state.take_ready_playback(10).expect("due");
    let mut report = PlaybackReport::default();
    let ok = state.playback_completion(head, true, &mut report);
    assert_eq!(ok, PcmStatus { status: SndStatus::Success, latency_bytes: 4096 });
    assert_eq!(report.frames_pushed, 1024);
    assert_eq!(report.completed, 1);
    let failed = state.playback_completion(head, false, &mut report);
    assert_eq!(failed.status, SndStatus::IoErr);
    assert_eq!(report.errors, 1);
    assert_eq!(report.completed, 2);
    assert_eq!(report.frames_pushed, 1024);
}

#[test]
fn release_flushes_every_queued_transfer_as_an_error() {
    let mut state = SndState::new();
    configure_running(&mut state, 0);
    assert!(state.enqueue_playback(2048, 48_000, 10, 10));
    assert!(state.enqueue_playback(2048, 48_000, 10, 20));
    let mut report = PlaybackReport::default();
    assert!(state.flush_released(&mut report).is_empty());
    assert_eq!(status(&state.handle_control(&lifecycle_request(VIRTIO_SND_R_PCM_STOP, 0))), VIRTIO_SND_S_OK);
    assert_eq!(status(&state.handle_control(&lifecycle_request(VIRTIO_SND_R_PCM_RELEASE, 0))), VIRTIO_SND_S_OK);
    let flushed = state.flush_released(&mut report);
    assert_eq!(flushed.len(), 2);
    assert_eq!(report.completed, 2);
    assert_eq!(report.errors, 2);
    assert_eq!(state.playback_pending_count(), 0);
    assert!(state.flush_released(&mut report).is_empty());
}

#[test]
fn short_or_failed_capture_pulls_raise_input_xruns() {
    let mut state = SndState::new();
    state.set_capture_enabled(true);
    configure_running(&mut state, CAPTURE_STREAM_ID);
    let params = params_for(CAPTURE_STREAM_ID);
    let held = state
        .decode_capture_transfer(&CAPTURE_STREAM_ID.to_le_bytes(), 4096 + 8, params, 48_000, 0)
        .expect("admitted");
    assert!(state.enqueue_capture(held.frame_count, held.channels, held.sample_rate_hz, held.period_bytes, held.duration_ns, held.deadline_ns));
    assert_eq!(state.take_ready_capture(held.deadline_ns - 1), None);
    let ready = state.take_ready_capture(held.deadline_ns).expect("due");
    let mut report = CaptureReport::default();
    let full = state.capture_completion(ready, Ok(2048), &mut report);
    assert_eq!(full, PcmStatus { status: SndStatus::Success, latency_bytes: 0 });
    assert_eq!(state.pending_event_count(), 0);
    assert_eq!(report.frames_pulled, 2048);
    let short = state.capture_completion(ready, Ok(100), &mut report);
    assert_eq!(short.status, SndStatus::Success);
    assert_eq!(state.next_event(), Some(SndEvent::pcm_xrun(CAPTURE_STREAM_ID)));
    let failed = state.capture_completion(ready, Err(AudioCaptureError::Failed), &mut report);
    assert_eq!(failed.status, SndStatus::IoErr);
    let too_many = state.capture_completion(ready, Ok(4096), &mut report);
    assert_eq!(too_many.status, SndStatus::IoErr);
    assert_eq!(report.completed, 4);
    assert_eq!(report.errors, 2);
    assert_eq!(report.xrun_events, 3);
    assert_eq!(report.frames_pulled, 2148);
    assert_eq!(state.finish_capture_report(report).pending_bytes, 0);
}

#[test]
fn capture_start_reschedules_held_buffers() {
    let mut state = SndState::new();
    state.set_capture_enabled(true);
    configure_running(&mut state, CAPTURE_STREAM_ID);
    assert!(state.enqueue_capture(2048, 1, 48_000, 4096, 30, 1));
    state.sync_capture_lifecycle(70);
    let report = state.finish_capture_report(CaptureReport::default());
    assert_eq!(report.next_deadline_ns, Some(100));
    assert_eq!(report.pending_bytes, 4096);
}
