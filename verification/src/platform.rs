//! The "wasm-vm virt" machine platform: the guest physical memory map, device windows, IRQ
//! numbers and boot contract, as one source of truth. Construction validates the whole map.

use vstd::prelude::*;

pub mod virt;

verus! {

/// A named physical-address window `[base, base + len)`.
#[derive(Debug, Clone, Copy, PartialEq, Eq)]
pub struct Region {
    pub name: &'static str,
    pub base: u64,
    pub len: u64,
}

/// One past the last byte of `[base, base+len)`, `None` when it passes the address space.
pub open spec fn region_end(base: u64, len: u64) -> Option<u64> {
    if base + len <= u64::MAX { Some((base + len) as u64) } else { None }
}

/// The end used for overlap tests: an overflowing window runs to the top of the space.
pub open spec fn region_end_or_top(base: u64, len: u64) -> int {
    match region_end(base, len) {
        Some(e) => e as int,
        None => u64::MAX as int,
    }
}

/// Whether two windows share a byte (overflow-safe reading).
pub open spec fn regions_overlap(a: Region, b: Region) -> bool {
    a.base < region_end_or_top(b.base, b.len) && b.base < region_end_or_top(a.base, a.len)
}

impl Region {
    /// One past the last byte, or `None` if `base + len` overflows the address space.
    pub fn end(&self) -> (r: Option<u64>)
        ensures r == region_end(self.base, self.len),
    {
        self.base.checked_add(self.len)
    }

    /// Whether `addr` lies inside this window.
    pub fn contains(&self, addr: u64) -> (r: bool)
        ensures r == (self.base <= addr && (addr as int) < (self.base as int) + (self.len as int)
            || (region_end(self.base, self.len) is None && self.base <= addr)),
    {
        match self.end() {
            Some(end) => addr >= self.base && addr < end,
            None => addr >= self.base,
        }
    }

    /// Whether two windows share any byte. A wrapping end is treated as the top of the space.
    pub fn overlaps(&self, other: &Region) -> (r: bool)
        ensures r == regions_overlap(*self, *other),
    {
        let a_end = match self.end() { Some(e) => e, None => u64::MAX };
        let b_end = match other.end() { Some(e) => e, None => u64::MAX };
        self.base < b_end && other.base < a_end
    }
}

/// Why a proposed platform map is invalid.
#[derive(Debug, Clone, PartialEq, Eq)]
pub enum PlatformError {
    /// DRAM size is zero, or `DRAM_BASE + size` overflows.
    DramSize(u64),
    /// Two regions share a byte.
    Overlap(Region, Region),
    /// A device window's base or length is not 4 KiB page-aligned.
    Misaligned(Region),
}

/// The `virt` machine platform for a given DRAM size.
#[derive(Debug, Clone, Copy, PartialEq, Eq)]
pub struct Platform {
    dram_size: u64,
}

/// Base address of virtio slot `i`.
pub open spec fn virtio_base_spec(i: u64) -> int {
    virt::VIRTIO_BASE + i * virt::VIRTIO_STRIDE
}

/// The full region map of a platform with DRAM of `dram_size` bytes, ascending by base.
pub open spec fn regions_spec(dram_size: u64) -> Seq<Region> {
    seq![
        Region { name: "test", base: virt::TEST_BASE, len: virt::TEST_LEN },
        Region { name: "rtc", base: virt::RTC_BASE, len: virt::RTC_LEN },
        Region { name: "clint", base: virt::CLINT_BASE, len: virt::CLINT_LEN },
        Region { name: "plic", base: virt::PLIC_BASE, len: virt::PLIC_LEN },
        Region { name: "uart0", base: virt::UART0_BASE, len: virt::UART0_LEN },
    ] + Seq::new(8, |i: int| Region { name: "virtio-mmio", base: (virt::VIRTIO_BASE + i * virt::VIRTIO_STRIDE) as u64, len: virt::VIRTIO_LEN })
      + seq![Region { name: "dram", base: virt::DRAM_BASE, len: dram_size }]
}

/// The DRAM sizes a platform accepts.
pub open spec fn dram_size_ok(dram_size: u64) -> bool {
    dram_size != 0 && virt::DRAM_BASE + dram_size <= u64::MAX
}

impl Platform {
    pub closed spec fn spec_dram_size(&self) -> u64 {
        self.dram_size
    }

    /// Build the platform with `dram_size` bytes of DRAM. The map is validated; a size that
    /// `try_new` refuses is a caller bug (the original panics), so it is excluded here.
    pub fn new(dram_size: u64) -> (r: Self)
        requires dram_size_ok(dram_size),
        ensures r.spec_dram_size() == dram_size,
    {
        match Self::try_new(dram_size) {
            Ok(p) => p,
            Err(_) => Platform { dram_size },
        }
    }

    /// Fallible constructor: returns the first inconsistency instead of panicking.
    pub fn try_new(dram_size: u64) -> (r: Result<Self, PlatformError>)
        ensures
            dram_size_ok(dram_size) <==> r is Ok,
            r matches Ok(p) ==> p.spec_dram_size() == dram_size,
            !dram_size_ok(dram_size) ==> r == Err::<Self, PlatformError>(PlatformError::DramSize(dram_size)),
    {
        if dram_size == 0 || virt::DRAM_BASE.checked_add(dram_size).is_none() {
            return Err(PlatformError::DramSize(dram_size));
        }
        let p = Platform { dram_size };
        let regions = p.regions();
        let n = regions.len();
        let mut k: usize = 0;
        while k < n
            invariant
                n == regions.len(),
                regions@ == regions_spec(dram_size),
                dram_size_ok(dram_size),
            decreases n - k,
        {
            let r = regions[k];
            if k < n - 1 && (r.len == 0 || r.base % 0x1000 != 0) {
                proof { lemma_device_windows_aligned(dram_size); }
                return Err(PlatformError::Misaligned(r));
            }
            k += 1;
        }
        let mut i: usize = 0;
        while i < n
            invariant
                n == regions.len(),
                regions@ == regions_spec(dram_size),
                dram_size_ok(dram_size),
            decreases n - i,
        {
            let mut j: usize = i + 1;
            while j < n
                invariant
                    n == regions.len(),
                    i < n,
                    i < j,
                    regions@ == regions_spec(dram_size),
                    dram_size_ok(dram_size),
                decreases n - j,
            {
                if regions[i].overlaps(&regions[j]) {
                    proof {
                        lemma_regions_disjoint(dram_size);
                        assert(regions@[i as int] == regions_spec(dram_size)[i as int]);
                        assert(regions@[j as int] == regions_spec(dram_size)[j as int]);
                    }
                    return Err(PlatformError::Overlap(regions[i], regions[j]));
                }
                j += 1;
            }
            i += 1;
        }
        Ok(p)
    }

    /// The configured DRAM size in bytes.
    pub fn dram_size(&self) -> (r: u64)
        ensures r == self.spec_dram_size(),
    {
        self.dram_size
    }

    /// The DRAM region.
    pub fn dram(&self) -> (r: Region)
        ensures r == (Region { name: "dram", base: virt::DRAM_BASE, len: self.spec_dram_size() }),
    {
        Region { name: "dram", base: virt::DRAM_BASE, len: self.dram_size }
    }

    /// Base address of virtio-mmio slot `i`.
    pub fn virtio_base(i: u64) -> (r: u64)
        requires i < virt::VIRTIO_COUNT,
        ensures r == virtio_base_spec(i),
    {
        virt::VIRTIO_BASE + i * virt::VIRTIO_STRIDE
    }

    /// PLIC source id for virtio-mmio slot `i` (`0..VIRTIO_COUNT`) → 1..=8.
    pub fn virtio_irq(i: u64) -> (r: u32)
        requires i < virt::VIRTIO_COUNT,
        ensures r == virt::VIRTIO_IRQ_BASE + i,
    {
        virt::VIRTIO_IRQ_BASE + i as u32
    }

    /// The full region map for this platform, in ascending base order.
    pub fn regions(&self) -> (v: Vec<Region>)
        ensures v@ == regions_spec(self.spec_dram_size()),
    {
        let mut v: Vec<Region> = Vec::new();
        v.push(Region { name: "test", base: virt::TEST_BASE, len: virt::TEST_LEN });
        v.push(Region { name: "rtc", base: virt::RTC_BASE, len: virt::RTC_LEN });
        v.push(Region { name: "clint", base: virt::CLINT_BASE, len: virt::CLINT_LEN });
        v.push(Region { name: "plic", base: virt::PLIC_BASE, len: virt::PLIC_LEN });
        v.push(Region { name: "uart0", base: virt::UART0_BASE, len: virt::UART0_LEN });
        let mut i: u64 = 0;
        while i < virt::VIRTIO_COUNT
            invariant
                i <= virt::VIRTIO_COUNT,
                v.len() == 5 + i,
                v@.subrange(0, 5) == regions_spec(self.spec_dram_size()).subrange(0, 5),
                forall|k: int| 0 <= k < i ==> #[trigger] v@[5 + k] == (Region { name: "virtio-mmio", base: (virt::VIRTIO_BASE + k * virt::VIRTIO_STRIDE) as u64, len: virt::VIRTIO_LEN }),
            decreases virt::VIRTIO_COUNT - i,
        {
            v.push(Region { name: "virtio-mmio", base: Self::virtio_base(i), len: virt::VIRTIO_LEN });
            i += 1;
        }
        v.push(self.dram());
        proof {
            assert(v@ =~= regions_spec(self.spec_dram_size())) by {
                assert forall|k: int| 0 <= k < 14 implies v@[k] == regions_spec(self.spec_dram_size())[k] by {
                    if k < 5 {
                        assert(v@.subrange(0, 5)[k] == regions_spec(self.spec_dram_size()).subrange(0, 5)[k]);
                    } else if k < 13 {
                        assert(v@[5 + (k - 5)] == v@[k]);
                    }
                }
            }
        }
        v
    }
}

impl Default for Platform {
    fn default() -> (r: Self)
        ensures r.spec_dram_size() == virt::DRAM_SIZE_DEFAULT,
    {
        Self::new(virt::DRAM_SIZE_DEFAULT)
    }
}

/// Every device window of the map (all but DRAM) is non-empty and sits on a 4 KiB boundary.
pub proof fn lemma_device_windows_aligned(dram_size: u64)
    ensures
        forall|k: int| 0 <= k < 13 ==> #[trigger] regions_spec(dram_size)[k].len != 0
            && regions_spec(dram_size)[k].base % 0x1000 == 0,
{
    assert forall|k: int| 0 <= k < 13 implies #[trigger] regions_spec(dram_size)[k].len != 0
        && regions_spec(dram_size)[k].base % 0x1000 == 0 by {
        if k >= 5 {
            assert(regions_spec(dram_size)[k].base == virt::VIRTIO_BASE + (k - 5) * virt::VIRTIO_STRIDE);
        }
    }
}

/// A valid platform's regions are pairwise disjoint: no two windows of the map share a byte.
pub proof fn lemma_regions_disjoint(dram_size: u64)
    requires dram_size_ok(dram_size),
    ensures
        forall|i: int, j: int| 0 <= i < j < 14 ==>
            !regions_overlap(#[trigger] regions_spec(dram_size)[i], #[trigger] regions_spec(dram_size)[j]),
{
    let r = regions_spec(dram_size);
    assert forall|i: int, j: int| 0 <= i < j < 14 implies !regions_overlap(#[trigger] r[i], #[trigger] r[j]) by {
        if 5 <= i < 13 {
            assert(r[i].base == virt::VIRTIO_BASE + (i - 5) * virt::VIRTIO_STRIDE);
        }
        if 5 <= j < 13 {
            assert(r[j].base == virt::VIRTIO_BASE + (j - 5) * virt::VIRTIO_STRIDE);
        }
    }
}

} // verus!
