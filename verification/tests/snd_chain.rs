use wasm_vm_core::dev::virtio::snd::chain::{segment_address, split_writable_tail, Segment, Violation};

fn seg(addr: u64, len: u32) -> Segment {
    Segment { addr, len, writable: true }
}

#[test]
fn status_tail_shares_the_last_segment() {
    let (data, status) = split_writable_tail(&[seg(0x1000, 100), seg(0x2000, 20)], 8).expect("split");
    assert_eq!(data, vec![seg(0x1000, 100), seg(0x2000, 12)]);
    assert_eq!(status, vec![seg(0x200c, 8)]);
}

#[test]
fn status_tail_may_span_segments() {
    let (data, status) = split_writable_tail(&[seg(0x1000, 10), seg(0x2000, 4), seg(0x3000, 2)], 8).expect("split");
    assert_eq!(data, vec![seg(0x1000, 8)]);
    assert_eq!(status, vec![seg(0x1008, 2), seg(0x2000, 4), seg(0x3000, 2)]);
    let data_total: u32 = data.iter().map(|s| s.len).sum();
    let status_total: u32 = status.iter().map(|s| s.len).sum();
    assert_eq!(data_total, 8);
    assert_eq!(status_total, 8);
}

#[test]
fn short_chain_is_all_status() {
    let (data, status) = split_writable_tail(&[seg(0x1000, 3), seg(0x2000, 2)], 8).expect("split");
    assert!(data.is_empty());
    assert_eq!(status, vec![seg(0x1000, 3), seg(0x2000, 2)]);
}

#[test]
fn wrapping_status_address_is_a_violation() {
    assert_eq!(split_writable_tail(&[seg(u64::MAX - 1, 16)], 8), Err(Violation::BadAddress));
}

#[test]
fn offsets_resolve_across_segments() {
    let segments = [seg(0x1000, 4), seg(0x2000, 4)];
    assert_eq!(segment_address(&segments, 0), Ok(0x1000));
    assert_eq!(segment_address(&segments, 3), Ok(0x1003));
    assert_eq!(segment_address(&segments, 4), Ok(0x2000));
    assert_eq!(segment_address(&segments, 7), Ok(0x2003));
    assert_eq!(segment_address(&segments, 8), Err(Violation::BadAddress));
    assert_eq!(segment_address(&[seg(u64::MAX, 4)], 1), Err(Violation::BadAddress));
    assert_eq!(segment_address(&[], 0), Err(Violation::BadAddress));
}
