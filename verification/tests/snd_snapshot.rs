use wasm_vm_core::dev::virtio::snd::snapshot::{
    CAPTURE_QUEUE_OFFSET, CAPTURE_STREAM_OFFSET, EVENT_COUNT_OFFSET, HEADER_LEN, OUTPUT_STREAM_OFFSET,
    PLAYBACK_QUEUE_OFFSET, RESET_PENDING_OFFSET,
};
use wasm_vm_core::dev::virtio::snd::{
    PcmControl, PcmParams, PcmState, SndEvent, SndRestoreReport, SndSnapshotError, SndState, SndStatus,
    CAPTURE_STREAM_ID, EVENT_QUEUE, MAX_PENDING_SND_EVENTS, VIRTIO_SND_R_PCM_PREPARE, VIRTIO_SND_R_PCM_START,
    VIRTIO_SND_R_PCM_STOP, VIRTIO_SND_S_OK,
};

fn status(response: &[u8]) -> u32 {
    u32::from_le_bytes([response[0], response[1], response[2], response[3]])
}

fn lifecycle_request(code: u32, stream_id: u32) -> [u8; 8] {
    let mut request = [0; 8];
    request[..4].copy_from_slice(&code.to_le_bytes());
    request[4..].copy_from_slice(&stream_id.to_le_bytes());
    request
}

fn configure_running(state: &mut SndState, stream_id: u32) {
    let params = PcmParams {
        stream_id,
        channels: if stream_id == CAPTURE_STREAM_ID { 1 } else { 2 },
        ..PcmParams::default()
    };
    assert_eq!(status(&state.handle_control(&params.to_bytes())), VIRTIO_SND_S_OK);
    assert_eq!(status(&state.handle_control(&lifecycle_request(VIRTIO_SND_R_PCM_PREPARE, stream_id))), VIRTIO_SND_S_OK);
    assert_eq!(status(&state.handle_control(&lifecycle_request(VIRTIO_SND_R_PCM_START, stream_id))), VIRTIO_SND_S_OK);
}

#[test]
fn running_restore_discards_ephemeral_rings_and_repairs_both_streams() {
    let mut source = SndState::new();
    source.set_capture_enabled(true);
    configure_running(&mut source, 0);
    configure_running(&mut source, CAPTURE_STREAM_ID);
    assert!(source.enqueue_playback(2048, 48_000, 1, 1));
    assert!(source.enqueue_capture(1, 1, 48_000, 4096, 1, 1));
    assert!(source.enqueue_xrun_event(0));
    source.mark_queue_kick(2);
    let payload = source.to_snapshot().expect("encode snapshot");

    let mut restored = SndState::new();
    let report = restored.restore_snapshot(&payload).expect("restore snapshot");
    assert_eq!(
        report,
        SndRestoreReport {
            host_audio_rings_discarded: true,
            discarded_playback_transfers: 1,
            discarded_capture_transfers: 1,
            xrun_events: 2,
        }
    );
    assert!(restored.capture_enabled());
    assert_eq!(restored.stream_state(), PcmState::Running);
    assert_eq!(restored.capture_stream_state(), PcmState::Running);
    assert_eq!(restored.playback_pending_count(), 0);
    assert_eq!(restored.capture_pending_count(), 0);
    assert_eq!(restored.pending_event_count(), 3);
    assert_eq!(restored.next_event(), Some(SndEvent::pcm_xrun(0)));
    assert!(restored.take_queue_kick(EVENT_QUEUE));
}

#[test]
fn malformed_restore_is_atomic_and_rejects_bad_params() {
    let mut state = SndState::new();
    configure_running(&mut state, 0);
    let payload = state.to_snapshot().expect("encode snapshot");
    let before = state.to_snapshot().expect("encode baseline");
    let mut malformed = payload;
    malformed[64..68].copy_from_slice(&0u32.to_le_bytes());
    assert_eq!(state.restore_snapshot(&malformed), Err(SndSnapshotError::InvalidParams { stream: 0 }));
    assert_eq!(state.to_snapshot().expect("encode after rejection"), before);
}

#[test]
fn pending_period_metadata_is_exact_and_atomic_for_both_streams() {
    let mut output_source = SndState::new();
    configure_running(&mut output_source, 0);
    let mut output_payload = output_source.to_snapshot().expect("encode output snapshot");
    output_payload[PLAYBACK_QUEUE_OFFSET..PLAYBACK_QUEUE_OFFSET + 4].copy_from_slice(&1u32.to_le_bytes());
    output_payload[PLAYBACK_QUEUE_OFFSET + 4..PLAYBACK_QUEUE_OFFSET + 8].copy_from_slice(&1u32.to_le_bytes());
    let mut output_target = SndState::new();
    configure_running(&mut output_target, 0);
    let output_before = output_target.to_snapshot().expect("encode output target");
    assert_eq!(
        output_target.restore_snapshot(&output_payload),
        Err(SndSnapshotError::InvalidPendingMetadata { stream: 0 })
    );
    assert_eq!(output_target.to_snapshot().expect("encode output after rejection"), output_before);

    let mut capture_source = SndState::new();
    capture_source.set_capture_enabled(true);
    configure_running(&mut capture_source, CAPTURE_STREAM_ID);
    let mut capture_payload = capture_source.to_snapshot().expect("encode capture snapshot");
    capture_payload[CAPTURE_QUEUE_OFFSET..CAPTURE_QUEUE_OFFSET + 4].copy_from_slice(&1u32.to_le_bytes());
    capture_payload[CAPTURE_QUEUE_OFFSET + 4..CAPTURE_QUEUE_OFFSET + 8].copy_from_slice(&1u32.to_le_bytes());
    let mut capture_target = SndState::new();
    capture_target.set_capture_enabled(true);
    configure_running(&mut capture_target, CAPTURE_STREAM_ID);
    let capture_before = capture_target.to_snapshot().expect("encode capture target");
    assert_eq!(
        capture_target.restore_snapshot(&capture_payload),
        Err(SndSnapshotError::InvalidPendingMetadata { stream: CAPTURE_STREAM_ID })
    );
    assert_eq!(capture_target.to_snapshot().expect("encode capture after rejection"), capture_before);
}

#[test]
fn running_repair_respects_the_event_budget_before_mutation() {
    let mut source = SndState::new();
    configure_running(&mut source, 0);
    for _ in 0..MAX_PENDING_SND_EVENTS {
        assert!(source.enqueue_xrun_event(0));
    }
    let payload = source.to_snapshot().expect("encode snapshot");
    let mut target = SndState::new();
    let before = target.to_snapshot().expect("encode baseline");
    assert_eq!(
        target.restore_snapshot(&payload),
        Err(SndSnapshotError::TooManyEvents { found: MAX_PENDING_SND_EVENTS + 1, maximum: MAX_PENDING_SND_EVENTS })
    );
    assert_eq!(target.to_snapshot().expect("encode after rejection"), before);
}

#[test]
fn stopped_stream_round_trip_preserves_configuration_without_xrun() {
    let mut source = SndState::new();
    configure_running(&mut source, 0);
    assert_eq!(
        status(&source.handle_control(&lifecycle_request(VIRTIO_SND_R_PCM_STOP, 0))),
        SndStatus::Success.code()
    );
    assert!(source.enqueue_xrun_event(0));
    let payload = source.to_snapshot().expect("encode snapshot");
    let mut restored = SndState::new();
    let report = restored.restore_snapshot(&payload).expect("restore snapshot");
    assert_eq!(report.xrun_events, 0);
    assert_eq!(restored.stream_state(), PcmState::Stopped);
    assert_eq!(restored.pending_event_count(), 1);
    assert_eq!(restored.stream_params(), source.stream_params());
}

#[test]
fn snapshot_header_has_stable_size_before_event_records() {
    let state = SndState::new();
    let payload = state.to_snapshot().expect("encode snapshot");
    assert_eq!(payload.len(), HEADER_LEN);
    assert_eq!(&payload[OUTPUT_STREAM_OFFSET..OUTPUT_STREAM_OFFSET + 1], &[0]);
    assert_eq!(&payload[CAPTURE_STREAM_OFFSET..CAPTURE_STREAM_OFFSET + 1], &[0]);
    assert_eq!(
        u32::from_le_bytes([
            payload[EVENT_COUNT_OFFSET],
            payload[EVENT_COUNT_OFFSET + 1],
            payload[EVENT_COUNT_OFFSET + 2],
            payload[EVENT_COUNT_OFFSET + 3],
        ]),
        0
    );
    assert_eq!(RESET_PENDING_OFFSET, HEADER_LEN - 4);
    assert_eq!(PcmControl::Info.index(), 0);
}
