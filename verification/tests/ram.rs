use wasm_vm_core::bus::mmap::{DRAM_BASE, DRAM_SIZE_DEFAULT};
use wasm_vm_core::bus::{Bus, BusFault};
use wasm_vm_core::ram::{OutOfMemory, Ram};

const SIZE: u64 = 64 * 1024;
const END: u64 = DRAM_BASE + SIZE;

fn ram() -> Ram {
    Ram::with_base(DRAM_BASE, SIZE as usize).unwrap()
}

#[test]
fn default_map_constants() {
    assert_eq!(DRAM_BASE, 0x8000_0000);
    assert_eq!(DRAM_SIZE_DEFAULT, 128 * 1024 * 1024);
    let r = Ram::new(4096).unwrap();
    assert_eq!(r.base(), DRAM_BASE);
}

#[test]
fn roundtrip_every_width_at_base_and_last_slot() {
    let mut r = ram();
    for addr in [DRAM_BASE, END - 1] {
        r.store8(addr, 0xA5).unwrap();
        assert_eq!(r.load8(addr).unwrap(), 0xA5, "load8 @ {addr:#x}");
    }
    for addr in [DRAM_BASE, END - 2] {
        r.store16(addr, 0xBEEF).unwrap();
        assert_eq!(r.load16(addr).unwrap(), 0xBEEF, "load16 @ {addr:#x}");
    }
    for addr in [DRAM_BASE, END - 4] {
        r.store32(addr, 0xDEAD_BEEF).unwrap();
        assert_eq!(r.load32(addr).unwrap(), 0xDEAD_BEEF, "load32 @ {addr:#x}");
    }
    for addr in [DRAM_BASE, END - 8] {
        r.store64(addr, 0x0123_4567_89AB_CDEF).unwrap();
        assert_eq!(r.load64(addr).unwrap(), 0x0123_4567_89AB_CDEF, "load64 @ {addr:#x}");
    }
}

#[test]
fn straddling_the_end_is_access_not_panic() {
    let mut r = ram();
    assert_eq!(r.load64(END - 4), Err(BusFault::Access));
    assert_eq!(r.store64(END - 4, 0), Err(BusFault::Access));
    assert_eq!(r.load16(END - 1), Err(BusFault::Access));
    assert_eq!(r.load32(END - 2), Err(BusFault::Access));
    assert_eq!(r.load64(END - 8), Ok(0));
}

#[test]
fn misaligned_in_range_faults_misaligned_at_every_width() {
    let mut r = ram();
    assert_eq!(r.load16(DRAM_BASE + 1), Err(BusFault::Misaligned));
    assert_eq!(r.load32(DRAM_BASE + 2), Err(BusFault::Misaligned));
    assert_eq!(r.load64(DRAM_BASE + 4), Err(BusFault::Misaligned));
    assert_eq!(r.store16(DRAM_BASE + 3, 0), Err(BusFault::Misaligned));
    assert_eq!(r.store32(DRAM_BASE + 1, 0), Err(BusFault::Misaligned));
    assert_eq!(r.store64(DRAM_BASE + 2, 0), Err(BusFault::Misaligned));
    assert_eq!(r.load8(DRAM_BASE + 1), Ok(0));
}

#[test]
fn little_endian_byte_order() {
    let mut r = ram();
    let a = DRAM_BASE + 0x100;
    r.store32(a, 0xDEAD_BEEF).unwrap();
    let bytes: [u8; 4] = core::array::from_fn(|i| r.load8(a + i as u64).unwrap());
    assert_eq!(bytes, [0xEF, 0xBE, 0xAD, 0xDE]);
}

#[test]
fn extreme_addresses_fault_without_overflow_panics() {
    let mut r = ram();
    for addr in [0u64, 0x7FFF_FFFF_FFFF_FFF8, u64::MAX - 7, u64::MAX] {
        assert_eq!(r.load8(addr).err(), Some(BusFault::Access), "load8 {addr:#x}");
        assert_eq!(r.load64(addr & !7).err(), Some(BusFault::Access));
        assert_eq!(r.store64(addr & !7, 0).err(), Some(BusFault::Access));
    }
    assert_eq!(r.load32(DRAM_BASE - 4), Err(BusFault::Access));
    assert_eq!(r.load64(DRAM_BASE - 8), Err(BusFault::Access));
}

#[test]
fn faulting_store_leaves_ram_bit_identical() {
    let mut r = ram();
    r.store64(END - 8, 0x1122_3344_5566_7788).unwrap();
    let mut before = vec![0u8; 16];
    r.read_slice(END - 16, &mut before).unwrap();
    assert_eq!(r.store64(END - 4, 0xFFFF_FFFF_FFFF_FFFF), Err(BusFault::Access));
    assert_eq!(r.store32(END - 3, 0xFFFF_FFFF), Err(BusFault::Access));
    let mut after = vec![0u8; 16];
    r.read_slice(END - 16, &mut after).unwrap();
    assert_eq!(before, after);
}

#[test]
fn slice_escape_hatch_bounds_and_content() {
    let mut r = ram();
    r.write_slice(DRAM_BASE + 3, &[1, 2, 3, 4, 5]).unwrap();
    let mut buf = [0u8; 5];
    r.read_slice(DRAM_BASE + 3, &mut buf).unwrap();
    assert_eq!(buf, [1, 2, 3, 4, 5]);
    assert_eq!(r.write_slice(END - 2, &[0; 4]), Err(BusFault::Access));
    assert_eq!(r.read_slice(u64::MAX - 1, &mut buf), Err(BusFault::Access));
    assert_eq!(r.read_slice(END, &mut []), Ok(()));
}

#[test]
fn zero_and_absurd_sizes_fail_cleanly() {
    let mut z = Ram::new(0).unwrap();
    assert!(z.is_empty());
    assert_eq!(z.load8(DRAM_BASE), Err(BusFault::Access));
    assert_eq!(z.store8(DRAM_BASE, 1), Err(BusFault::Access));
    assert_eq!(Ram::new(usize::MAX).err(), Some(OutOfMemory));
}

#[test]
fn as_bytes_reflects_stores_at_their_offsets() {
    let mut r = ram();
    r.store16(DRAM_BASE + 0x10, 0xA1B2).unwrap();
    let bytes = r.as_bytes();
    assert_eq!(bytes.len(), SIZE as usize);
    assert_eq!(&bytes[0x10..0x12], &[0xB2, 0xA1]);
    assert!(r.ram_contains(END - 8, 8));
    assert!(!r.ram_contains(END - 4, 8));
}
