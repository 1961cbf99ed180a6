use wasm_vm_core::prof::pause::{bucket_of, JitPauseStats, PAUSE_BUCKETS};

#[test]
fn work_bound_tracks_max() {
    let mut s = JitPauseStats::new();
    s.record(0, 4, 3, 300);
    s.record(0, 8, 7, 100);
    s.record(0, 2, 2, 900);
    assert_eq!(s.max_submitted_blocks, 7);
    assert_eq!(s.max_submitted_bytes, 900);
    assert_eq!(s.total_submitted_blocks, 12);
    assert_eq!(s.max_attempted_blocks, 8);
    assert_eq!(s.total_attempted_blocks, 14);
    assert_eq!(s.count, 3);
    s.record_run(14, 12, 20, 1, 3, 2);
    s.record_run(5, 4, 5, 0, 0, 0);
    assert_eq!(s.run_count, 2);
    assert_eq!(s.last_run_submitted_blocks, 4);
    assert_eq!(s.max_run_submitted_blocks, 12);
    assert_eq!(s.last_run_attempted_blocks, 5);
    assert_eq!(s.max_run_attempted_blocks, 14);
    assert_eq!(s.last_run_staged_nominations, 5);
    assert_eq!(s.max_run_staged_nominations, 20);
    assert_eq!(s.last_final_pumps, 0);
    assert_eq!(s.max_final_pumps, 1);
    assert_eq!(s.max_final_submitted_blocks, 2);
}

#[test]
fn buckets_bracket_the_target() {
    assert_eq!(bucket_of(4_194_304), 22);
    assert_eq!(bucket_of(0), 0);
    assert_eq!(bucket_of(1), 0);
}

#[test]
fn over_target_max_sum_and_mean() {
    let mut s = JitPauseStats::new();
    assert_eq!(s.mean_ns(), 0);
    s.record(1_000_000, 1, 1, 1);
    s.record(6_000_000, 1, 1, 1);
    assert_eq!(s.over_target, 1);
    assert_eq!(s.max_ns, 6_000_000);
    assert_eq!(s.sum_ns, 7_000_000);
    assert_eq!(s.mean_ns(), 3_500_000);
    assert_eq!(s.buckets[bucket_of(1_000_000)], 1);
    assert_eq!(bucket_of(u64::MAX), PAUSE_BUCKETS - 1);
    assert_eq!(bucket_of(3), 1);
}
