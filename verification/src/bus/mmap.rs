//! The physical memory map the bus and RAM are built on, drawn from the platform constants.

use vstd::prelude::*;

verus! {

/// Base of guest DRAM.
pub const DRAM_BASE: u64 = 0x8000_0000;
/// Default guest DRAM size (128 MiB).
pub const DRAM_SIZE_DEFAULT: u64 = 134217728;
/// CLINT window.
pub const CLINT_BASE: u64 = 0x0200_0000;
/// PLIC window.
pub const PLIC_BASE: u64 = 0x0C00_0000;
/// UART0 window.
pub const UART0_BASE: u64 = 0x1000_0000;
pub const UART0_LEN: u64 = 0x100;

} // verus!
