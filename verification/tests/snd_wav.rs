use wasm_vm_core::dev::virtio::snd::wav::{pcm_bytes, wav_accepts, wav_header, wav_sizes};
use wasm_vm_core::prof::JitPauseStats;

#[test]
fn wav_header_layout() {
    let h = wav_header(48_000, 36, 0);
    assert_eq!(&h[0..4], b"RIFF");
    assert_eq!(&h[4..8], &36u32.to_le_bytes());
    assert_eq!(&h[8..16], b"WAVEfmt ");
    assert_eq!(&h[16..20], &16u32.to_le_bytes());
    assert_eq!(&h[20..24], &[1, 0, 2, 0]);
    assert_eq!(&h[24..28], &48_000u32.to_le_bytes());
    assert_eq!(&h[28..32], &192_000u32.to_le_bytes());
    assert_eq!(&h[32..40], &[4, 0, 16, 0, b'd', b'a', b't', b'a']);
    assert_eq!(&h[40..44], &0u32.to_le_bytes());
    assert_eq!(&wav_header(u32::MAX, 0, 0)[28..32], &u32::MAX.to_le_bytes());
}

#[test]
fn wav_batches_are_checked_before_they_are_written() {
    assert_eq!(wav_accepts(false, 48_000, 0, 4, 48_000), Some(8));
    assert_eq!(wav_accepts(true, 48_000, 0, 4, 48_000), None);
    assert_eq!(wav_accepts(false, 48_000, 0, 4, 44_100), None);
    assert_eq!(wav_accepts(false, 48_000, 0, 3, 48_000), None);
    assert_eq!(wav_accepts(false, 48_000, u32::MAX as u64 - 7, 4, 48_000), None);
    assert_eq!(wav_accepts(false, 48_000, u32::MAX as u64 - 8, 4, 48_000), Some(u32::MAX as u64));
    assert_eq!(pcm_bytes(&[1, -1, 0x1234]), vec![1, 0, 0xff, 0xff, 0x34, 0x12]);
    assert_eq!(wav_sizes(100), Some((136, 100)));
    assert_eq!(wav_sizes(u32::MAX as u64 - 35), None);
    assert_eq!(wav_sizes(u32::MAX as u64 - 36), Some((u32::MAX, u32::MAX - 36)));
}

#[test]
fn pause_percentile_is_the_edge_of_the_bucket_reaching_the_count() {
    let mut s = JitPauseStats::new();
    s.buckets[3] = 2;
    s.buckets[10] = 2;
    s.max_ns = 5000;
    assert_eq!(s.percentile_for_count(1), 16);
    assert_eq!(s.percentile_for_count(2), 16);
    assert_eq!(s.percentile_for_count(3), 2048);
    assert_eq!(s.percentile_for_count(5), 5000);
    assert_eq!(s.percentile_for_count(0), 2);
}
