use wasm_vm_core::bus::mmap::DRAM_BASE;
use wasm_vm_core::bus::{Bus, BusFault};
use wasm_vm_core::mmio::{AttachError, MmioDevice, RecordingDevice, SystemBus, Width};
use wasm_vm_core::ram::Ram;

const RAM_SIZE: u64 = 64 * 1024;
const WIN_BASE: u64 = 0x1000_0000;
const WIN_LEN: u64 = 0x100;
const WIN_END: u64 = WIN_BASE + WIN_LEN;
const HOLE: u64 = 0x2000_0000;

fn bus_with_device(read_value: u64) -> SystemBus<RecordingDevice> {
    let mut bus = SystemBus::new(Ram::new(RAM_SIZE as usize).unwrap());
    bus.attach(WIN_BASE, WIN_LEN, RecordingDevice::new(read_value)).unwrap();
    bus
}

fn no_calls(bus: &SystemBus<RecordingDevice>) -> bool {
    let log = bus.device(0).log();
    log.reads.is_empty() && log.writes.is_empty()
}

#[test]
fn ram_accesses_pass_through_unchanged() {
    let mut bus = bus_with_device(0);
    bus.store64(DRAM_BASE, 0x0123_4567_89AB_CDEF).unwrap();
    assert_eq!(bus.load64(DRAM_BASE), Ok(0x0123_4567_89AB_CDEF));
    assert_eq!(bus.load8(DRAM_BASE), Ok(0xEF));
    assert_eq!(bus.load64(DRAM_BASE + 4), Err(BusFault::Misaligned));
    assert_eq!(bus.load64(DRAM_BASE + RAM_SIZE - 4), Err(BusFault::Access));
    assert!(no_calls(&bus));
}

#[test]
fn window_access_reaches_device_with_offset_width_value() {
    let mut bus = bus_with_device(0);
    bus.store32(WIN_BASE + 0x40, 0xDEAD_BEEF).unwrap();
    bus.store16(WIN_BASE + 0x10, 0xCAFE).unwrap();
    bus.store8(WIN_BASE, 0x5A).unwrap();
    bus.store64(WIN_BASE + 0xF8, 0x1122_3344_5566_7788).unwrap();
    assert_eq!(
        bus.device(0).log().writes,
        [
            (0x40, Width::B4, 0xDEAD_BEEF),
            (0x10, Width::B2, 0xCAFE),
            (0x00, Width::B1, 0x5A),
            (0xF8, Width::B8, 0x1122_3344_5566_7788),
        ]
    );
    bus.load16(WIN_BASE + 0x20).unwrap();
    assert_eq!(bus.device(0).log().reads, [(0x20, Width::B2)]);
}

#[test]
fn width_forwarding_is_exact_never_split() {
    let mut bus = bus_with_device(0);
    bus.store16(WIN_BASE + 2, 0xBEEF).unwrap();
    let log = bus.device(0).log();
    assert_eq!(log.writes.len(), 1, "store16 must be ONE B2 call, not split");
    assert_eq!(log.writes[0], (2, Width::B2, 0xBEEF));
}

#[test]
fn unmapped_hole_faults_access_at_every_width() {
    let mut bus = bus_with_device(0);
    assert_eq!(bus.load8(HOLE), Err(BusFault::Access));
    assert_eq!(bus.load16(HOLE), Err(BusFault::Access));
    assert_eq!(bus.load32(HOLE), Err(BusFault::Access));
    assert_eq!(bus.load64(HOLE), Err(BusFault::Access));
    assert_eq!(bus.store8(HOLE, 0), Err(BusFault::Access));
    assert_eq!(bus.store16(HOLE, 0), Err(BusFault::Access));
    assert_eq!(bus.store32(HOLE, 0), Err(BusFault::Access));
    assert_eq!(bus.store64(HOLE, 0), Err(BusFault::Access));
    assert!(no_calls(&bus));
}

#[test]
fn straddling_window_edge_faults_and_never_invokes_device() {
    let mut bus = bus_with_device(0);
    assert_eq!(bus.load64(WIN_END - 4), Err(BusFault::Access));
    assert_eq!(bus.store64(WIN_END - 4, 0), Err(BusFault::Access));
    assert_eq!(bus.load16(WIN_END - 1), Err(BusFault::Access));
    assert_eq!(bus.load32(WIN_BASE - 2), Err(BusFault::Access));
    let log = bus.device(0).log();
    assert_eq!(
        log.reads.len() + log.writes.len(),
        0,
        "straddling access must not partially invoke the device"
    );
}

#[test]
fn misaligned_in_window_faults_without_invoking_device() {
    let mut bus = bus_with_device(0);
    assert_eq!(bus.load32(WIN_BASE + 2), Err(BusFault::Misaligned));
    assert_eq!(bus.store16(WIN_BASE + 1, 0), Err(BusFault::Misaligned));
    assert!(no_calls(&bus));
}

#[test]
fn attach_rejects_overlap_with_ram_and_devices() {
    let mut bus = bus_with_device(0);
    let reject = |bus: &mut SystemBus<RecordingDevice>, base: u64, len: u64| {
        bus.attach(base, len, RecordingDevice::new(0))
    };
    assert_eq!(reject(&mut bus, DRAM_BASE - 4, 8), Err(AttachError::Overlap));
    assert_eq!(reject(&mut bus, DRAM_BASE + 8, 8), Err(AttachError::Overlap));
    assert_eq!(reject(&mut bus, WIN_BASE - 4, 8), Err(AttachError::Overlap));
    assert_eq!(reject(&mut bus, WIN_END - 4, 8), Err(AttachError::Overlap));
    assert_eq!(reject(&mut bus, WIN_BASE + 4, 4), Err(AttachError::Overlap));
    assert_eq!(reject(&mut bus, WIN_BASE, WIN_LEN), Err(AttachError::Overlap));
    assert_eq!(reject(&mut bus, WIN_END, 0x10), Ok(()));
    assert_eq!(reject(&mut bus, WIN_BASE - 0x10, 0x10), Ok(()));
}

#[test]
fn attach_rejects_zero_length_and_overflow_without_panic() {
    let mut bus = bus_with_device(0);
    assert_eq!(bus.attach(0x3000_0000, 0, RecordingDevice::new(0)), Err(AttachError::ZeroLength));
    assert_eq!(bus.attach(u64::MAX - 2, 8, RecordingDevice::new(0)), Err(AttachError::AddressOverflow));
    assert_eq!(bus.attach(u64::MAX - 7, 8, RecordingDevice::new(0)), Err(AttachError::AddressOverflow));
}

#[test]
fn device_read_results_are_masked_to_width() {
    let mut bus = bus_with_device(u64::MAX);
    assert_eq!(bus.load8(WIN_BASE), Ok(0xFF));
    assert_eq!(bus.load16(WIN_BASE), Ok(0xFFFF));
    assert_eq!(bus.load32(WIN_BASE), Ok(0xFFFF_FFFF));
    assert_eq!(bus.load64(WIN_BASE), Ok(u64::MAX));
}

#[test]
fn multiple_devices_route_independently() {
    let mut bus = SystemBus::new(Ram::new(RAM_SIZE as usize).unwrap());
    bus.attach(0x1000_0000, 0x100, RecordingDevice::new(0x11)).unwrap();
    bus.attach(0x1000_1000, 0x100, RecordingDevice::new(0x22)).unwrap();
    assert_eq!(bus.load8(0x1000_0000), Ok(0x11));
    assert_eq!(bus.load8(0x1000_1040), Ok(0x22));
    assert_eq!(bus.device(0).log().reads, [(0x00, Width::B1)]);
    assert_eq!(bus.device(1).log().reads, [(0x40, Width::B1)]);
}

struct Faulty;

impl MmioDevice for Faulty {
    fn read_value(&self, _: u64, _: Width) -> Result<u64, BusFault> {
        Err(BusFault::Access)
    }
    fn write_result(&self, _: u64, _: Width, _: u64) -> Result<(), BusFault> {
        Err(BusFault::Access)
    }
    fn read(&mut self, _: u64, _: Width) -> Result<u64, BusFault> {
        Err(BusFault::Access)
    }
    fn write(&mut self, _: u64, _: Width, _: u64) -> Result<(), BusFault> {
        Err(BusFault::Access)
    }
}

#[test]
fn device_faults_propagate() {
    let mut bus = SystemBus::new(Ram::new(RAM_SIZE as usize).unwrap());
    bus.attach(WIN_BASE, WIN_LEN, Faulty).unwrap();
    assert_eq!(bus.load32(WIN_BASE), Err(BusFault::Access));
    assert_eq!(bus.store32(WIN_BASE, 1), Err(BusFault::Access));
}

#[test]
fn zero_size_ram_bus_still_routes_devices() {
    let mut bus = SystemBus::new(Ram::new(0).unwrap());
    bus.attach(WIN_BASE, WIN_LEN, RecordingDevice::new(0x7)).unwrap();
    assert_eq!(bus.load8(WIN_BASE + 1), Ok(0x7));
    assert_eq!(bus.device(0).log().reads, [(0x1, Width::B1)]);
    assert_eq!(bus.load8(DRAM_BASE), Err(BusFault::Access));
    assert_eq!(bus.attach(DRAM_BASE, 0x100, RecordingDevice::new(0)), Ok(()));
}

#[test]
fn window_count_and_ram_contains_reflect_the_map() {
    let mut bus = bus_with_device(0);
    assert_eq!(bus.window_count(), 1);
    bus.attach(HOLE, 0x10, RecordingDevice::new(0)).unwrap();
    assert_eq!(bus.window_count(), 2);
    assert!(bus.ram_contains(DRAM_BASE, 8));
    assert!(!bus.ram_contains(WIN_BASE, 1));
    assert_eq!(bus.ram().len(), RAM_SIZE as usize);
    assert_eq!(Width::B4.bytes(), 4);
    assert_eq!(Width::B2.mask(), 0xFFFF);
}
