//! Canonical constants for the `virt` platform (QEMU `virt` compatible layout).

use vstd::prelude::*;

verus! {

/// Base of guest DRAM.
pub const DRAM_BASE: u64 = 0x8000_0000;
/// Default guest DRAM size (128 MiB).
pub const DRAM_SIZE_DEFAULT: u64 = 134217728;
/// syscon test/finisher device (poweroff + reboot).
pub const TEST_BASE: u64 = 0x0010_0000;
pub const TEST_LEN: u64 = 0x1000;
/// goldfish-rtc.
pub const RTC_BASE: u64 = 0x0010_1000;
pub const RTC_LEN: u64 = 0x1000;
/// CLINT.
pub const CLINT_BASE: u64 = 0x0200_0000;
pub const CLINT_LEN: u64 = 0x1_0000;
/// PLIC.
pub const PLIC_BASE: u64 = 0x0C00_0000;
pub const PLIC_LEN: u64 = 0x0060_0000;
/// UART0 (16550A).
pub const UART0_BASE: u64 = 0x1000_0000;
pub const UART0_LEN: u64 = 0x100;
/// virtio-mmio transport slots: `VIRTIO_COUNT` windows of `VIRTIO_LEN` bytes,
/// `VIRTIO_STRIDE` apart, the first at `VIRTIO_BASE`.
pub const VIRTIO_BASE: u64 = 0x1000_1000;
pub const VIRTIO_LEN: u64 = 0x1000;
pub const VIRTIO_STRIDE: u64 = 0x1000;
pub const VIRTIO_COUNT: u64 = 8;
/// UART0 interrupt line.
pub const UART0_IRQ: u32 = 10;
/// goldfish-rtc interrupt line.
pub const RTC_IRQ: u32 = 11;
/// First virtio-mmio slot's IRQ; slot `i` is `VIRTIO_IRQ_BASE + i`.
pub const VIRTIO_IRQ_BASE: u32 = 1;
/// Number of PLIC interrupt sources advertised (`riscv,ndev`).
pub const PLIC_NDEV: u32 = 95;
/// Harts present.
pub const NUM_HARTS: usize = 1;
/// The hart that runs firmware/kernel entry.
pub const BOOT_HART: u64 = 0;
/// The boot hart enters with `a0 = hartid` and `a1 = DTB physical address`.
pub const BOOT_A0_IS_HARTID: bool = true;
/// UART reference clock (`clock-frequency`), Hz.
pub const UART_CLOCK_HZ: u32 = 3_686_400;
/// The CPU timebase (`timebase-frequency`), Hz.
pub const TIMEBASE_FREQ_HZ: u32 = 10_000_000;
/// Where a supervisor kernel image is loaded and entered.
pub const KERNEL_BASE: u64 = 0x8020_0000;

} // verus!
