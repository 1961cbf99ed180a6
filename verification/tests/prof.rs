use wasm_vm_core::platform::virt;
use wasm_vm_core::prof::histogram::{HotHistogram, REGION_SHIFT, SIZE};
use wasm_vm_core::prof::report::subsystem_index;
use wasm_vm_core::prof::{subsystem_breakdown, FixedTimer, HostTimer, ProfStats, Subsystem, TimeAccum};

fn index_of(region: u64) -> usize {
    const GOLDEN64: u64 = 0x9E3779B97F4A7C15;
    const LOG2_SIZE: u32 = 13;
    (region.wrapping_mul(GOLDEN64) >> (64 - LOG2_SIZE)) as usize
}

fn colliding_regions() -> (u64, u64) {
    let target = index_of(1);
    for r in 2..1_000_000u64 {
        if index_of(r) == target {
            return (1, r);
        }
    }
    panic!("no colliding region found in scan range");
}

#[test]
fn records_land_in_expected_64_byte_regions() {
    let mut h = HotHistogram::new();
    h.record(0x1000);
    h.record(0x1020);
    h.record(0x1040);
    let top = h.top(8);
    assert_eq!(h.samples(), 3);
    assert!(top.contains(&(0x1000, 2)), "0x1000+0x1020 share region: {top:?}");
    assert!(top.contains(&(0x1040, 1)), "0x1040 is a separate region: {top:?}");
    assert_eq!(0x1000u64 >> REGION_SHIFT << REGION_SHIFT, 0x1000);
}

#[test]
fn tight_loop_concentrates() {
    let mut h = HotHistogram::new();
    for _ in 0..1000 {
        h.record(0x2000);
        h.record(0x2008);
    }
    h.record(0x9000);
    h.record(0xA000);
    let top = h.top(3);
    assert_eq!(top[0], (0x2000, 2000), "the hot loop region tops the list: {top:?}");
    assert!(top[0].1 > top[1].1 * 100, "hot region dwarfs the rest");
}

#[test]
fn top_is_descending_with_low_pc_tie_break() {
    let mut h = HotHistogram::new();
    for _ in 0..3 {
        h.record(0x4000);
    }
    h.record(0x6000);
    h.record(0x5000);
    let top = h.top(8);
    assert_eq!(top[0], (0x4000, 3), "highest count first");
    assert_eq!(top[1], (0x5000, 1));
    assert_eq!(top[2], (0x6000, 1));
}

#[test]
fn collisions_are_visible_not_silently_merged() {
    let (a, b) = colliding_regions();
    assert_ne!(a, b);
    assert_eq!(index_of(a), index_of(b), "constructed regions must alias");
    let pa = a << REGION_SHIFT;
    let pb = b << REGION_SHIFT;
    let mut h = HotHistogram::new();
    for _ in 0..100 {
        h.record(pa);
    }
    for _ in 0..50 {
        h.record(pb);
    }
    assert_eq!(h.collisions(), 50, "every aliased B record is a visible collision");
    let top = h.top(8);
    assert_eq!(top.len(), 1, "only A occupies its slot; B never got one");
    assert_eq!(top[0], (pa, 100), "A's count is uncorrupted by B's aliasing");
}

#[test]
fn weak_incumbent_is_evicted_by_newcomer() {
    let (a, b) = colliding_regions();
    let pa = a << REGION_SHIFT;
    let pb = b << REGION_SHIFT;
    let mut h = HotHistogram::new();
    h.record(pa);
    h.record(pb);
    let top = h.top(8);
    assert_eq!(top, vec![(pb, 1)], "weak A evicted, B owns the slot: {top:?}");
    assert_eq!(h.collisions(), 0, "eviction is not a collision");
}

#[test]
fn histogram_memory_is_fixed() {
    let mut h = HotHistogram::new();
    for pc in 0..(SIZE as u64 * 4) {
        h.record(pc << (REGION_SHIFT + 4));
    }
    assert!(h.top(usize::MAX).len() <= SIZE);
}

#[test]
fn fixed_timer_reflects_set_and_advance_monotonically() {
    let mut t = FixedTimer::new(1000);
    assert_eq!(t.now_ns(), 1000);
    t.set(5000);
    assert_eq!(t.now_ns(), 5000);
    let before = t.now_ns();
    t.advance(250);
    assert_eq!(t.now_ns(), 5250);
    assert!(t.now_ns() >= before, "advance is non-decreasing (monotonic)");
}

#[test]
fn advance_saturates_at_the_top() {
    let mut t = FixedTimer::new(u64::MAX - 1);
    t.advance(10);
    assert_eq!(t.now_ns(), u64::MAX);
}

#[test]
fn add_ns_accumulates_per_subsystem() {
    let mut p = ProfStats::new();
    p.add_ns(Subsystem::MmuWalk, 100);
    p.add_ns(Subsystem::MmuWalk, 50);
    p.add_ns(Subsystem::Uart, 7);
    let rep = p.subsystem_ns(0);
    let get = |sub: Subsystem| rep.iter().find(|(s, _)| *s == sub).unwrap().1;
    assert_eq!(get(Subsystem::MmuWalk), 150, "MmuWalk accumulates exactly");
    assert_eq!(get(Subsystem::Uart), 7);
    assert_eq!(get(Subsystem::Clint), 0, "untouched subsystems stay zero");
}

#[test]
fn cpu_time_is_the_total_less_every_measured_subsystem() {
    let mut p = ProfStats::new();
    p.add_ns(Subsystem::Plic, 30);
    p.add_ns(Subsystem::VirtioBlk, 20);
    p.add_ns(Subsystem::CpuInterp, 999);
    let rep = p.subsystem_ns(1000);
    assert_eq!(rep.len(), 11);
    assert_eq!(rep[0], (Subsystem::CpuInterp, 950));
    let rep = p.subsystem_ns(10);
    assert_eq!(rep[0], (Subsystem::CpuInterp, 0), "saturates at zero");
    let mut acc = TimeAccum::new();
    acc.add_ns(Subsystem::MmuWalk, 5);
    acc.note_walk();
    assert_eq!(acc.walk_count, 1);
    let rep = subsystem_breakdown(100, &acc.ns);
    assert_eq!(rep[0], (Subsystem::CpuInterp, 95));
    assert_eq!(rep[1], (Subsystem::MmuWalk, 5));
}

#[test]
fn record_pc_feeds_the_histogram_and_the_denominator() {
    let mut p = ProfStats::new();
    for _ in 0..3 {
        p.record_pc(0x1000);
    }
    p.record_pc(0x2000);
    p.note_walk();
    p.note_walk();
    assert_eq!(p.sample_count(), 4);
    assert_eq!(p.walk_count(), 2);
    assert_eq!(p.histogram().top(4), vec![(0x1000, 3), (0x2000, 1)]);
}

#[test]
fn device_bases_map_to_their_subsystems() {
    assert_eq!(Subsystem::for_device_base(virt::CLINT_BASE), Subsystem::Clint);
    assert_eq!(Subsystem::for_device_base(virt::PLIC_BASE), Subsystem::Plic);
    assert_eq!(Subsystem::for_device_base(virt::UART0_BASE), Subsystem::Uart);
    assert_eq!(Subsystem::for_device_base(virt::RTC_BASE), Subsystem::Rtc);
    assert_eq!(Subsystem::for_device_base(virt::TEST_BASE), Subsystem::Syscon);
    assert_eq!(Subsystem::for_device_base(virt::VIRTIO_BASE), Subsystem::VirtioBlk);
    assert_eq!(Subsystem::for_device_base(virt::VIRTIO_BASE + 0x1000), Subsystem::VirtioNet);
    assert_eq!(Subsystem::for_device_base(virt::VIRTIO_BASE + 0x2000), Subsystem::VirtioRng);
    assert_eq!(Subsystem::for_device_base(virt::VIRTIO_BASE + 0x3000), Subsystem::Other);
    assert_eq!(Subsystem::for_device_base(virt::VIRTIO_BASE + 0x10), Subsystem::Other);
    assert_eq!(Subsystem::for_device_base(0xdead_0000), Subsystem::Other);
    assert_eq!(Subsystem::VirtioBlk.name(), "virtio_blk");
    assert_eq!(subsystem_index(Subsystem::Other), 10);
    assert_eq!(Subsystem::ALL[4], Subsystem::Uart);
}
