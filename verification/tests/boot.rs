use wasm_vm_core::boot::{boot_layout, initrd_placement, BootError};
use wasm_vm_core::fdt::{build_virt_dtb, Initrd};
use wasm_vm_core::mmio::RecordingDevice;
use wasm_vm_core::platform::{virt, Platform};
use wasm_vm_core::Machine;

type TestMachine = Machine<RecordingDevice>;

const MIB: u64 = 1024 * 1024;

#[test]
fn the_boot_triple_is_laid_out_and_written() {
    let mut m = TestMachine::new((64 * MIB) as usize);
    let kernel = [0x13u8; 16];
    let initrd = [7u8, 8, 9, 10];
    let layout = m.place_and_boot(&kernel, Some(&initrd), "console=ttyS0").expect("boots");
    assert_eq!(layout.kernel_end, virt::KERNEL_BASE + 16);
    let floor = (virt::KERNEL_BASE + 16 + 2 * MIB - 1) & !(2 * MIB - 1);
    let place = layout.initrd.expect("initrd placed");
    assert_eq!((place.start, place.end), (floor, floor + 4));
    let plat = Platform::new(64 * MIB);
    let dtb = build_virt_dtb(&plat, "console=ttyS0", Some(Initrd { start: floor, end: floor + 4 }));
    assert_eq!(layout.dtb_len, dtb.len());
    assert_eq!(layout.dtb_addr % 8, 0);
    assert!(layout.dtb_addr + dtb.len() as u64 + 16 * 1024 <= virt::DRAM_BASE + 64 * MIB);
    let ram = m.bus_mut().ram().as_bytes().to_vec();
    let at = |a: u64| (a - virt::DRAM_BASE) as usize;
    assert_eq!(&ram[at(virt::KERNEL_BASE)..at(virt::KERNEL_BASE) + 16], &kernel);
    assert_eq!(&ram[at(floor)..at(floor) + 4], &initrd);
    assert_eq!(&ram[at(layout.dtb_addr)..at(layout.dtb_addr) + dtb.len()], &dtb[..]);

    let (planned, planned_dtb) = boot_layout(64 * MIB, &kernel, Some(4), "console=ttyS0").expect("plans");
    assert_eq!(planned.dtb_addr, layout.dtb_addr);
    assert_eq!(planned.kernel_end, layout.kernel_end);
    assert_eq!(planned_dtb, dtb);
}

#[test]
fn without_an_initrd_the_dtb_has_no_initrd_and_nothing_else_is_placed() {
    let (layout, dtb) = boot_layout(64 * MIB, &[1, 2, 3], None, "").expect("plans");
    assert!(layout.initrd.is_none());
    assert_eq!(dtb, build_virt_dtb(&Platform::new(64 * MIB), "", None));
}

#[test]
fn each_boot_error_has_an_input() {
    assert_eq!(boot_layout(0, &[1], None, "").unwrap_err(), BootError::PlatformInvalid);
    let big = vec![0u8; (9 * MIB) as usize];
    assert_eq!(boot_layout(8 * MIB, &big, None, "").unwrap_err(), BootError::KernelTooBig);
    assert_eq!(boot_layout(8 * MIB, &[1], Some(4 * MIB), "").unwrap_err(), BootError::InitrdNoFit);
    assert_eq!(boot_layout(16 * 1024, &[], None, "").unwrap_err(), BootError::KernelTooBig);
    let mut m = TestMachine::new(0);
    assert_eq!(m.place_and_boot(&[1], None, "").unwrap_err(), BootError::PlatformInvalid);
}

#[test]
fn an_initrd_must_end_by_the_dtb() {
    assert_eq!(initrd_placement(100, 110, 10).map(|i| (i.start, i.end)), Some((100, 110)));
    assert!(initrd_placement(100, 109, 10).is_none());
    assert!(initrd_placement(u64::MAX, u64::MAX, 2).is_none());
}
