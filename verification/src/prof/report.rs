//! The subsystems that scoped timing is attributed to, and how a device window maps to one.

use vstd::prelude::*;
use crate::platform::virt;

verus! {

/// Number of subsystems; the length of every per-subsystem accumulator.
pub const SUBSYSTEM_COUNT: usize = 11;

/// The subsystems scoped timing is attributed to, in their stable accumulator order.
#[derive(Debug, Clone, Copy, PartialEq, Eq, Structural)]
pub enum Subsystem {
    /// CPU instruction interpretation.
    CpuInterp,
    /// Page-table walks.
    MmuWalk,
    /// CLINT device time.
    Clint,
    /// PLIC device time.
    Plic,
    /// ns16550a UART device time.
    Uart,
    /// virtio-blk service time.
    VirtioBlk,
    /// virtio-net service time.
    VirtioNet,
    /// virtio-rng service time.
    VirtioRng,
    /// Goldfish RTC device time.
    Rtc,
    /// Syscon test-finisher time.
    Syscon,
    /// Anything not separately attributed.
    Other,
}

/// The position of `sub` in the stable order (the on-wire order too).
pub open spec fn subsystem_pos(sub: Subsystem) -> int {
    match sub {
        Subsystem::CpuInterp => 0,
        Subsystem::MmuWalk => 1,
        Subsystem::Clint => 2,
        Subsystem::Plic => 3,
        Subsystem::Uart => 4,
        Subsystem::VirtioBlk => 5,
        Subsystem::VirtioNet => 6,
        Subsystem::VirtioRng => 7,
        Subsystem::Rtc => 8,
        Subsystem::Syscon => 9,
        Subsystem::Other => 10,
    }
}

/// The subsystem at position `i` of the stable order.
pub open spec fn subsystem_at(i: int) -> Subsystem {
    if i == 0 { Subsystem::CpuInterp }
    else if i == 1 { Subsystem::MmuWalk }
    else if i == 2 { Subsystem::Clint }
    else if i == 3 { Subsystem::Plic }
    else if i == 4 { Subsystem::Uart }
    else if i == 5 { Subsystem::VirtioBlk }
    else if i == 6 { Subsystem::VirtioNet }
    else if i == 7 { Subsystem::VirtioRng }
    else if i == 8 { Subsystem::Rtc }
    else if i == 9 { Subsystem::Syscon }
    else { Subsystem::Other }
}

/// The subsystem owning the device window at `base`: the fixed devices by their base, virtio
/// slots 0, 1, 2 as blk, net, rng; anything else is `Other`.
pub open spec fn device_subsystem(base: u64) -> Subsystem {
    if base == virt::CLINT_BASE {
        Subsystem::Clint
    } else if base == virt::PLIC_BASE {
        Subsystem::Plic
    } else if base == virt::UART0_BASE {
        Subsystem::Uart
    } else if base == virt::RTC_BASE {
        Subsystem::Rtc
    } else if base == virt::TEST_BASE {
        Subsystem::Syscon
    } else if virt::VIRTIO_BASE <= base < virt::VIRTIO_BASE + virt::VIRTIO_COUNT * virt::VIRTIO_STRIDE
        && (base - virt::VIRTIO_BASE) % (virt::VIRTIO_STRIDE as int) == 0 {
        let slot = (base - virt::VIRTIO_BASE) / (virt::VIRTIO_STRIDE as int);
        if slot == 0 { Subsystem::VirtioBlk } else if slot == 1 { Subsystem::VirtioNet } else if slot == 2 {
            Subsystem::VirtioRng
        } else {
            Subsystem::Other
        }
    } else {
        Subsystem::Other
    }
}

impl Subsystem {
    /// Every variant, in the stable order.
    pub const ALL: [Subsystem; 11] = [
        Subsystem::CpuInterp,
        Subsystem::MmuWalk,
        Subsystem::Clint,
        Subsystem::Plic,
        Subsystem::Uart,
        Subsystem::VirtioBlk,
        Subsystem::VirtioNet,
        Subsystem::VirtioRng,
        Subsystem::Rtc,
        Subsystem::Syscon,
        Subsystem::Other,
    ];

    /// Map an MMIO window's base address to the subsystem that owns it.
    pub fn for_device_base(base: u64) -> (r: Subsystem)
        ensures r == device_subsystem(base),
    {
        if base == virt::CLINT_BASE {
            Subsystem::Clint
        } else if base == virt::PLIC_BASE {
            Subsystem::Plic
        } else if base == virt::UART0_BASE {
            Subsystem::Uart
        } else if base == virt::RTC_BASE {
            Subsystem::Rtc
        } else if base == virt::TEST_BASE {
            Subsystem::Syscon
        } else if virt::VIRTIO_BASE <= base && base < virt::VIRTIO_BASE + virt::VIRTIO_COUNT * virt::VIRTIO_STRIDE
            && (base - virt::VIRTIO_BASE) % virt::VIRTIO_STRIDE == 0 {
            let slot = (base - virt::VIRTIO_BASE) / virt::VIRTIO_STRIDE;
            if slot == 0 {
                Subsystem::VirtioBlk
            } else if slot == 1 {
                Subsystem::VirtioNet
            } else if slot == 2 {
                Subsystem::VirtioRng
            } else {
                Subsystem::Other
            }
        } else {
            Subsystem::Other
        }
    }

    /// Stable short name (used in both the text table and JSON keys).
    pub fn name(&self) -> (r: &'static str)
        ensures r@ == subsystem_name(*self)@,
    {
        match self {
            Subsystem::CpuInterp => "cpu_interp",
            Subsystem::MmuWalk => "mmu_walk",
            Subsystem::Clint => "clint",
            Subsystem::Plic => "plic",
            Subsystem::Uart => "uart",
            Subsystem::VirtioBlk => "virtio_blk",
            Subsystem::VirtioNet => "virtio_net",
            Subsystem::VirtioRng => "virtio_rng",
            Subsystem::Rtc => "rtc",
            Subsystem::Syscon => "syscon",
            Subsystem::Other => "other",
        }
    }
}

/// The stable short name of each subsystem.
pub open spec fn subsystem_name(sub: Subsystem) -> &'static str {
    match sub {
        Subsystem::CpuInterp => "cpu_interp",
        Subsystem::MmuWalk => "mmu_walk",
        Subsystem::Clint => "clint",
        Subsystem::Plic => "plic",
        Subsystem::Uart => "uart",
        Subsystem::VirtioBlk => "virtio_blk",
        Subsystem::VirtioNet => "virtio_net",
        Subsystem::VirtioRng => "virtio_rng",
        Subsystem::Rtc => "rtc",
        Subsystem::Syscon => "syscon",
        Subsystem::Other => "other",
    }
}

/// The position of a subsystem in the stable order, the index into every accumulator.
pub fn subsystem_index(sub: Subsystem) -> (r: usize)
    ensures r == subsystem_pos(sub), r < SUBSYSTEM_COUNT, subsystem_at(r as int) == sub,
{
    match sub {
        Subsystem::CpuInterp => 0,
        Subsystem::MmuWalk => 1,
        Subsystem::Clint => 2,
        Subsystem::Plic => 3,
        Subsystem::Uart => 4,
        Subsystem::VirtioBlk => 5,
        Subsystem::VirtioNet => 6,
        Subsystem::VirtioRng => 7,
        Subsystem::Rtc => 8,
        Subsystem::Syscon => 9,
        Subsystem::Other => 10,
    }
}

} // verus!
