//! Linux boot placement: the kernel `Image` at `KERNEL_BASE`, the initrd on the first 2 MiB
//! boundary above the kernel's runtime footprint, and the device tree near the top of DRAM.

use vstd::prelude::*;
use crate::bus::BusFault;
use crate::fdt::{build_virt_dtb, dtb_placement, dtb_placement_spec, fdt_image, virt_items, Initrd};
use crate::machine::{footprint_spec, kernel_image_footprint, Machine};
use crate::mmio::MmioDevice;
use crate::ram::splice;
use crate::platform::{dram_size_ok, virt, Platform};

verus! {

/// Why the boot triple could not be laid out.
#[derive(Debug, Clone, Copy, PartialEq, Eq)]
pub enum BootError {
    /// The RAM size gives no valid platform map.
    PlatformInvalid,
    /// The kernel's runtime footprint (`.bss` included) does not fit above `KERNEL_BASE`.
    KernelTooBig,
    /// `kernel_end` is so large that 2 MiB-aligning the initrd above it would wrap.
    KernelEndOverflow,
    /// The initrd does not fit in the gap between the kernel and the DTB.
    InitrdNoFit,
    /// The DTB does not fit near the top of RAM.
    DtbNoFit,
    /// A blob write (initrd or DTB) hit a bus fault.
    Load(BusFault),
}

/// Where the boot triple lands in DRAM.
#[derive(Debug, Clone, Copy)]
pub struct BootLayout {
    pub kernel_end: u64,
    pub initrd: Option<Initrd>,
    pub dtb_addr: u64,
    pub dtb_len: usize,
}

/// The alignment of the initrd (the kernel's PMD size).
pub const PMD_SIZE: u64 = 0x20_0000;

/// The first 2 MiB boundary at or above `kernel_end`, if it is an address.
pub open spec fn initrd_floor_spec(kernel_end: u64) -> Option<u64> {
    if kernel_end + (PMD_SIZE - 1) > u64::MAX {
        None
    } else {
        let v: int = kernel_end + (PMD_SIZE - 1);
        Some((v - v % (PMD_SIZE as int)) as u64)
    }
}

/// An initrd of `len` bytes at `floor`, if it ends at or below `dtb_addr`.
pub open spec fn initrd_placement_spec(floor: u64, dtb_addr: u64, len: u64) -> Option<Initrd> {
    if floor + len > dtb_addr { None } else { Some(Initrd { start: floor, end: (floor + len) as u64 }) }
}

/// Place an initrd of `len` bytes at `floor`, ending at or below the DTB at `dtb_addr`.
pub fn initrd_placement(floor: u64, dtb_addr: u64, len: u64) -> (r: Option<Initrd>)
    ensures r == initrd_placement_spec(floor, dtb_addr, len),
{
    match floor.checked_add(len) {
        Some(end) => if end <= dtb_addr { Some(Initrd { start: floor, end }) } else { None },
        None => None,
    }
}

/// The DTB of a machine with `ram_len` bytes of DRAM, `bootargs` and `initrd`.
pub open spec fn boot_dtb(ram_len: u64, bootargs: Seq<char>, initrd: Option<Initrd>) -> Seq<u8> {
    fdt_image(virt_items(ram_len, bootargs, initrd), Seq::empty())
}

/// The layout after the kernel ends at `kernel_end`: the DTB at the top of DRAM (its address
/// found with placeholder initrd properties, which encode to the same length), the initrd at
/// the 2 MiB floor above the kernel, and the final DTB.
pub open spec fn layout_after_kernel(ram_len: u64, kernel_end: u64, initrd_len: Option<u64>, bootargs: Seq<char>)
    -> Result<(BootLayout, Seq<u8>), BootError>
{
    match initrd_floor_spec(kernel_end) {
        None => Err(BootError::KernelEndOverflow),
        Some(floor) => match initrd_len {
            None => {
                let dtb = boot_dtb(ram_len, bootargs, None);
                match dtb_placement_spec(ram_len, dtb.len() as u64) {
                    None => Err(BootError::DtbNoFit),
                    Some(a) => Ok((BootLayout { kernel_end, initrd: None, dtb_addr: a, dtb_len: dtb.len() as usize }, dtb)),
                }
            },
            Some(n) => {
                let probe = boot_dtb(ram_len, bootargs, Some(Initrd { start: 0, end: 0 }));
                match dtb_placement_spec(ram_len, probe.len() as u64) {
                    None => Err(BootError::DtbNoFit),
                    Some(a) => match initrd_placement_spec(floor, a, n) {
                        None => Err(BootError::InitrdNoFit),
                        Some(place) => {
                            let dtb = boot_dtb(ram_len, bootargs, Some(place));
                            Ok((BootLayout { kernel_end, initrd: Some(place), dtb_addr: a, dtb_len: dtb.len() as usize }, dtb))
                        },
                    },
                }
            },
        },
    }
}

/// The end of the kernel's runtime footprint at `KERNEL_BASE`, if it fits in `ram_len` bytes of
/// DRAM.
pub open spec fn kernel_end_spec(ram_len: u64, kernel: Seq<u8>) -> Option<u64> {
    let end = virt::KERNEL_BASE + footprint_spec(kernel);
    if end > u64::MAX || end > virt::DRAM_BASE + ram_len { None } else { Some(end as u64) }
}

/// The boot layout for `kernel`, an initrd of `initrd_len` bytes and `bootargs` in `ram_len`
/// bytes of DRAM, with the DTB to write; the first reason it cannot be laid out, in order.
pub open spec fn boot_layout_spec(ram_len: u64, kernel: Seq<u8>, initrd_len: Option<u64>, bootargs: Seq<char>)
    -> Result<(BootLayout, Seq<u8>), BootError>
{
    if !dram_size_ok(ram_len) {
        Err(BootError::PlatformInvalid)
    } else {
        match kernel_end_spec(ram_len, kernel) {
            None => Err(BootError::KernelTooBig),
            Some(end) => layout_after_kernel(ram_len, end, initrd_len, bootargs),
        }
    }
}

fn layout_after(plat: &Platform, kernel_end: u64, initrd_len: Option<u64>, bootargs: &str) -> (r: Result<(BootLayout, Vec<u8>), BootError>)
    ensures
        match layout_after_kernel(plat.spec_dram_size(), kernel_end, initrd_len, bootargs@) {
            Ok((l, d)) => r matches Ok((l2, v)) && l2 == l && v@ == d,
            Err(e) => r == Err::<(BootLayout, Vec<u8>), BootError>(e),
        },
{
    let floor = match kernel_end.checked_add(PMD_SIZE - 1) {
        Some(v) => v - v % PMD_SIZE,
        None => return Err(BootError::KernelEndOverflow),
    };
    match initrd_len {
        None => {
            let dtb = build_virt_dtb(plat, bootargs, None);
            let n = dtb.len();
            proof { crate::ram::lemma_usize_fits_u64(n as nat); }
            let a = match dtb_placement(plat, n as u64) {
                Some(a) => a,
                None => return Err(BootError::DtbNoFit),
            };
            Ok((BootLayout { kernel_end, initrd: None, dtb_addr: a, dtb_len: n }, dtb))
        },
        Some(len) => {
            let probe = build_virt_dtb(plat, bootargs, Some(Initrd { start: 0, end: 0 }));
            let pn = probe.len();
            proof { crate::ram::lemma_usize_fits_u64(pn as nat); }
            let a = match dtb_placement(plat, pn as u64) {
                Some(a) => a,
                None => return Err(BootError::DtbNoFit),
            };
            let place = match initrd_placement(floor, a, len) {
                Some(p) => p,
                None => return Err(BootError::InitrdNoFit),
            };
            let dtb = build_virt_dtb(plat, bootargs, Some(place));
            let n = dtb.len();
            Ok((BootLayout { kernel_end, initrd: Some(place), dtb_addr: a, dtb_len: n }, dtb))
        },
    }
}

/// Lay out the Linux boot triple in `ram_len` bytes of DRAM ([`boot_layout_spec`]): where the
/// kernel ends, where the initrd and DTB go, and the DTB itself.
pub fn boot_layout(ram_len: u64, kernel: &[u8], initrd_len: Option<u64>, bootargs: &str) -> (r: Result<(BootLayout, Vec<u8>), BootError>)
    ensures
        match boot_layout_spec(ram_len, kernel@, initrd_len, bootargs@) {
            Ok((l, d)) => r matches Ok((l2, v)) && l2 == l && v@ == d,
            Err(e) => r == Err::<(BootLayout, Vec<u8>), BootError>(e),
        },
{
    let plat = match Platform::try_new(ram_len) {
        Ok(p) => p,
        Err(_) => return Err(BootError::PlatformInvalid),
    };
    let footprint = kernel_image_footprint(kernel);
    let end = match virt::KERNEL_BASE.checked_add(footprint) {
        Some(e) => e,
        None => return Err(BootError::KernelTooBig),
    };
    if end > virt::DRAM_BASE + ram_len {
        return Err(BootError::KernelTooBig);
    }
    layout_after(&plat, end, initrd_len, bootargs)
}

/// RAM bytes `bytes` (based at `base`) with the kernel at `KERNEL_BASE`, the initrd where `l`
/// places it, and the DTB `dtb` at `l.dtb_addr`, written in that order.
pub open spec fn boot_ram(bytes: Seq<u8>, base: u64, kernel: Seq<u8>, initrd: Option<Seq<u8>>, l: BootLayout, dtb: Seq<u8>) -> Seq<u8> {
    let k = splice(bytes, virt::KERNEL_BASE - base, kernel);
    let i = match (l.initrd, initrd) {
        (Some(p), Some(b)) => splice(k, p.start - base, b),
        _ => k,
    };
    splice(i, l.dtb_addr - base, dtb)
}

impl<D: MmioDevice> Machine<D> {
    /// Lay out the Linux boot triple in DRAM: load the kernel `Image` at `KERNEL_BASE`, place the
    /// DTB near the top of RAM and the initrd on the 2 MiB boundary above the kernel's runtime
    /// footprint, and write both blobs. Device wiring is the caller's job, and so is entering
    /// the kernel with `a1` = the DTB address. Each step's failure is reported as the original
    /// order of the steps has it; a later failure leaves the earlier writes in RAM.
    #[verifier::spinoff_prover]
    #[verifier::rlimit(60)]
    pub fn place_and_boot(&mut self, kernel: &[u8], initrd: Option<&[u8]>, bootargs: &str) -> (r: Result<BootLayout, BootError>)
        requires old(self).wf(),
        ensures
            final(self).wf(),
            final(self).spec_hart() == old(self).spec_hart(),
            final(self).spec_htif() == old(self).spec_htif(),
            !dram_size_ok(old(self).spec_bus().ram_view().bytes.len() as u64) ==> r == Err::<BootLayout, BootError>(BootError::PlatformInvalid)
                && final(self).spec_bus() == old(self).spec_bus(),
            r matches Ok(l) ==> {
                let ram = old(self).spec_bus().ram_view();
                let il: Option<u64> = match initrd { Some(b) => Some(b@.len() as u64), None => None };
                &&& l.kernel_end == virt::KERNEL_BASE + footprint_spec(kernel@)
                &&& layout_after_kernel(ram.bytes.len() as u64, l.kernel_end, il, bootargs@) matches Ok((l2, dtb))
                &&& l2 == l
                &&& final(self).spec_bus().ram_view().base == ram.base
                &&& final(self).spec_bus().ram_view().bytes == boot_ram(ram.bytes, ram.base, kernel@,
                    match initrd { Some(b) => Some(b@), None => None::<Seq<u8>> }, l, dtb)
            },
    {
        let ram_len = self.ram_len();
        proof { crate::ram::lemma_usize_fits_u64(ram_len as nat); }
        let plat = match Platform::try_new(ram_len as u64) {
            Ok(p) => p,
            Err(_) => return Err(BootError::PlatformInvalid),
        };
        let kernel_end = match self.load_kernel_image(kernel) {
            Ok(e) => e,
            Err(_) => return Err(BootError::KernelTooBig),
        };
        let il: Option<u64> = match initrd {
            Some(b) => {
                let n = b.len();
                proof { crate::ram::lemma_usize_fits_u64(n as nat); }
                Some(n as u64)
            },
            None => None,
        };
        let (layout, dtb) = match layout_after(&plat, kernel_end, il, bootargs) {
            Ok(x) => x,
            Err(e) => return Err(e),
        };
        match (layout.initrd, initrd) {
            (Some(place), Some(bytes)) => {
                match self.load_blob(place.start, bytes) {
                    Ok(()) => {},
                    Err(e) => return Err(BootError::Load(e)),
                }
            },
            _ => {},
        }
        match self.load_blob(layout.dtb_addr, dtb.as_slice()) {
            Ok(()) => Ok(layout),
            Err(e) => Err(BootError::Load(e)),
        }
    }
}

} // verus!
