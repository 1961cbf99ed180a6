use wasm_vm_core::loader::{load_elf, ElfError};
use wasm_vm_core::bus::Bus;
use wasm_vm_core::ram::Ram;

fn put(b: &mut [u8], off: usize, v: u64, width: usize) {
    for i in 0..width {
        b[off + i] = (v >> (8 * i)) as u8;
    }
}

/// A one-segment rv64 executable: `data` at `paddr`, zero-filled up to `memsz`.
fn image(paddr: u64, data: &[u8], memsz: u64) -> Vec<u8> {
    let mut b = vec![0u8; 120 + data.len()];
    b[0..4].copy_from_slice(&[0x7f, b'E', b'L', b'F']);
    b[4] = 2;
    b[5] = 1;
    put(&mut b, 16, 2, 2);
    put(&mut b, 18, 243, 2);
    put(&mut b, 24, paddr, 8);
    put(&mut b, 32, 64, 8);
    put(&mut b, 54, 56, 2);
    put(&mut b, 56, 1, 2);
    put(&mut b, 64, 1, 4);
    put(&mut b, 64 + 8, 120, 8);
    put(&mut b, 64 + 24, paddr, 8);
    put(&mut b, 64 + 32, data.len() as u64, 8);
    put(&mut b, 64 + 40, memsz, 8);
    b[120..].copy_from_slice(data);
    b
}

#[test]
fn a_segment_loads_and_zero_fills() {
    let mut ram = Ram::with_base(0x8000_0000, 64).unwrap();
    for i in 0..64u64 {
        ram.store8(0x8000_0000 + i, 0xaa).unwrap();
    }
    let img = load_elf(&image(0x8000_0000, &[1, 2, 3], 8), &mut ram).expect("loads");
    assert_eq!(img.entry, 0x8000_0000);
    assert_eq!(&ram.as_bytes()[0..9], &[1, 2, 3, 0, 0, 0, 0, 0, 0xaa]);
}

#[test]
fn a_segment_past_the_address_space_is_refused_with_ram_untouched() {
    let base = u64::MAX - 0xfff;
    let mut ram = Ram::with_base(base, 0x2000).unwrap();
    let before = ram.as_bytes().to_vec();
    let r = load_elf(&image(base, &[1, 2, 3, 4], 0x1800), &mut ram);
    assert_eq!(r.unwrap_err(), ElfError::SegmentOutOfRam);
    assert_eq!(ram.as_bytes(), &before[..]);
}

#[test]
fn header_errors_come_in_order_and_leave_ram_untouched() {
    let mut ram = Ram::with_base(0x8000_0000, 64).unwrap();
    let before = ram.as_bytes().to_vec();
    assert_eq!(load_elf(&[0x7f, b'E'], &mut ram).unwrap_err(), ElfError::BadMagic);
    let mut b = image(0x8000_0000, &[1], 1);
    b[4] = 1;
    assert_eq!(load_elf(&b, &mut ram).unwrap_err(), ElfError::WrongClass);
    let mut b = image(0x8000_0000, &[1], 1);
    put(&mut b, 18, 62, 2);
    assert_eq!(load_elf(&b, &mut ram).unwrap_err(), ElfError::WrongMachine);
    assert_eq!(ram.as_bytes(), &before[..]);
}
