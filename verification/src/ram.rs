//! Guest physical RAM: a heap-allocated, zero-initialized byte array mapped at a base address,
//! implementing [`Bus`] with the fault policy of [`crate::bus`]: range before alignment,
//! little-endian, and a faulting store writes nothing.

use vstd::prelude::*;
use crate::bus::{Bus, BusFault, valid_width, res8, res16, res32};
use crate::bus::mmap;

verus! {

/// RAM allocation failed (the requested size exceeds what the allocator can provide).
#[derive(Debug, Clone, Copy, PartialEq, Eq)]
pub struct OutOfMemory;

/// The mathematical content of a RAM: its base guest physical address and its bytes.
pub struct RamView {
    pub base: u64,
    pub bytes: Seq<u8>,
}

/// Byte-array RAM mapped at `base`, addressed by guest physical address.
pub struct Ram {
    base: u64,
    data: Vec<u8>,
}

/// Where a `width`-byte access at `addr` lands: the byte offset, or the fault. Range is checked
/// before alignment, so a straddling misaligned access faults `Access`.
pub open spec fn ram_index(v: RamView, addr: u64, width: nat) -> Result<int, BusFault> {
    if addr < v.base {
        Err(BusFault::Access)
    } else if (addr - v.base) + width > v.bytes.len() {
        Err(BusFault::Access)
    } else if (addr as int) % (width as int) != 0 {
        Err(BusFault::Misaligned)
    } else {
        Ok(addr - v.base)
    }
}

/// Byte `k` (little-endian) of `v`.
pub open spec fn byte_of(v: u64, k: int) -> u8 {
    ((v >> ((8 * k) as u64)) & 0xff) as u8
}

/// The little-endian value of the `width` bytes of `s` starting at `off`.
pub open spec fn le_value(s: Seq<u8>, off: int, width: nat) -> u64 {
    if width == 1 {
        s[off] as u64
    } else if width == 2 {
        (s[off] as u64) | ((s[off + 1] as u64) << 8u64)
    } else if width == 4 {
        (s[off] as u64) | ((s[off + 1] as u64) << 8u64) | ((s[off + 2] as u64) << 16u64)
            | ((s[off + 3] as u64) << 24u64)
    } else {
        (s[off] as u64) | ((s[off + 1] as u64) << 8u64) | ((s[off + 2] as u64) << 16u64)
            | ((s[off + 3] as u64) << 24u64) | ((s[off + 4] as u64) << 32u64)
            | ((s[off + 5] as u64) << 40u64) | ((s[off + 6] as u64) << 48u64)
            | ((s[off + 7] as u64) << 56u64)
    }
}

/// `s` with the `width` little-endian bytes of `v` written at `off`.
pub open spec fn write_le(s: Seq<u8>, off: int, width: nat, v: u64) -> Seq<u8> {
    Seq::new(s.len(), |j: int| if off <= j < off + width { byte_of(v, j - off) } else { s[j] })
}

/// `s` with `data` copied in at `off`.
pub open spec fn splice(s: Seq<u8>, off: int, data: Seq<u8>) -> Seq<u8> {
    Seq::new(s.len(), |j: int| if off <= j < off + data.len() { data[j - off] } else { s[j] })
}

/// The value of `v` truncated to `width` bytes.
pub open spec fn truncate(v: u64, width: nat) -> u64 {
    if width == 1 { v & 0xff } else if width == 2 { v & 0xffff } else if width == 4 { v & 0xffff_ffff } else { v }
}

/// The byte-granular range check of the loader escape hatches (no alignment requirement).
pub open spec fn ram_range(v: RamView, addr: u64, len: nat) -> Result<int, BusFault> {
    if addr < v.base || (addr - v.base) + len > v.bytes.len() {
        Err(BusFault::Access)
    } else {
        Ok(addr - v.base)
    }
}

/// What a load yields in RAM state `v`.
pub open spec fn ram_load(v: RamView, addr: u64, width: nat) -> Result<u64, BusFault> {
    match ram_index(v, addr, width) {
        Ok(off) => Ok(le_value(v.bytes, off, width)),
        Err(e) => Err(e),
    }
}

/// The RAM bytes after a store (unchanged on a fault).
pub open spec fn ram_store(v: RamView, addr: u64, width: nat, val: u64) -> Seq<u8> {
    match ram_index(v, addr, width) {
        Ok(off) => write_le(v.bytes, off, width, val),
        Err(_) => v.bytes,
    }
}

impl View for Ram {
    type V = RamView;

    closed spec fn view(&self) -> RamView {
        RamView { base: self.base, bytes: self.data@ }
    }
}

/// Reading back what a store wrote, at the same address and width, gives the stored value
/// (truncated to the width); a faulting store leaves every byte as it was.
pub proof fn lemma_store_then_load(v: RamView, addr: u64, width: nat, val: u64)
    requires valid_width(width),
    ensures
        ram_store(v, addr, width, val).len() == v.bytes.len(),
        ram_index(v, addr, width) is Ok ==> ram_load(
            RamView { base: v.base, bytes: ram_store(v, addr, width, val) }, addr, width)
            == Ok::<u64, BusFault>(truncate(val, width)),
        ram_index(v, addr, width) is Err ==> ram_store(v, addr, width, val) == v.bytes,
{
    if let Ok(off) = ram_index(v, addr, width) {
        let s = ram_store(v, addr, width, val);
        let nv = RamView { base: v.base, bytes: s };
        assert(ram_index(nv, addr, width) == ram_index(v, addr, width));
        lemma_le_roundtrip(val, width);
        assert(le_value(s, off, width) == le_of_bytes(val, width));
    }
}

/// The little-endian value of the bytes of `v`, reassembled.
pub open spec fn le_of_bytes(v: u64, width: nat) -> u64 {
    if width == 1 {
        byte_of(v, 0) as u64
    } else if width == 2 {
        (byte_of(v, 0) as u64) | ((byte_of(v, 1) as u64) << 8u64)
    } else if width == 4 {
        (byte_of(v, 0) as u64) | ((byte_of(v, 1) as u64) << 8u64) | ((byte_of(v, 2) as u64) << 16u64)
            | ((byte_of(v, 3) as u64) << 24u64)
    } else {
        (byte_of(v, 0) as u64) | ((byte_of(v, 1) as u64) << 8u64) | ((byte_of(v, 2) as u64) << 16u64)
            | ((byte_of(v, 3) as u64) << 24u64) | ((byte_of(v, 4) as u64) << 32u64)
            | ((byte_of(v, 5) as u64) << 40u64) | ((byte_of(v, 6) as u64) << 48u64)
            | ((byte_of(v, 7) as u64) << 56u64)
    }
}

proof fn lemma_le_roundtrip(v: u64, width: nat)
    requires valid_width(width),
    ensures le_of_bytes(v, width) == truncate(v, width),
{
    assert((((v >> 0u64) & 0xff) as u8 as u64) == v & 0xff) by (bit_vector);
    assert(((((v >> 0u64) & 0xff) as u8 as u64) | ((((v >> 8u64) & 0xff) as u8 as u64) << 8u64)) == v & 0xffff) by (bit_vector);
    assert(((((v >> 0u64) & 0xff) as u8 as u64) | ((((v >> 8u64) & 0xff) as u8 as u64) << 8u64)
        | ((((v >> 16u64) & 0xff) as u8 as u64) << 16u64) | ((((v >> 24u64) & 0xff) as u8 as u64) << 24u64))
        == v & 0xffff_ffff) by (bit_vector);
    assert(((((v >> 0u64) & 0xff) as u8 as u64) | ((((v >> 8u64) & 0xff) as u8 as u64) << 8u64)
        | ((((v >> 16u64) & 0xff) as u8 as u64) << 16u64) | ((((v >> 24u64) & 0xff) as u8 as u64) << 24u64)
        | ((((v >> 32u64) & 0xff) as u8 as u64) << 32u64) | ((((v >> 40u64) & 0xff) as u8 as u64) << 40u64)
        | ((((v >> 48u64) & 0xff) as u8 as u64) << 48u64) | ((((v >> 56u64) & 0xff) as u8 as u64) << 56u64))
        == v) by (bit_vector);
}

impl Ram {
    /// RAM of `bytes` zeroed bytes at the canonical [`mmap::DRAM_BASE`]. An allocation the
    /// allocator refuses is `Err(OutOfMemory)`, never an abort.
    pub fn new(bytes: usize) -> (r: Result<Self, OutOfMemory>)
        ensures
            r matches Ok(ram) ==> ram@.base == mmap::DRAM_BASE && ram@.bytes == Seq::new(bytes as nat, |i: int| 0u8),
    {
        Self::with_base(mmap::DRAM_BASE, bytes)
    }

    /// RAM of `bytes` zeroed bytes at an arbitrary base.
    pub fn with_base(base: u64, bytes: usize) -> (r: Result<Self, OutOfMemory>)
        ensures
            r matches Ok(ram) ==> ram@.base == base && ram@.bytes == Seq::new(bytes as nat, |i: int| 0u8),
    {
        let mut data: Vec<u8> = Vec::new();
        if data.try_reserve(bytes).is_err() {
            return Err(OutOfMemory);
        }
        data.resize(bytes, 0u8);
        let ram = Self { base, data };
        assert(ram@.bytes =~= Seq::new(bytes as nat, |i: int| 0u8));
        Ok(ram)
    }

    /// RAM with no bytes at the canonical base: every access faults. Needs no allocation.
    pub fn empty() -> (r: Self)
        ensures r@.base == mmap::DRAM_BASE, r@.bytes.len() == 0,
    {
        Ram { base: mmap::DRAM_BASE, data: Vec::new() }
    }

    /// Size of this RAM in bytes.
    pub fn len(&self) -> (r: usize)
        ensures r == self@.bytes.len(),
    {
        self.data.len()
    }

    /// True when this RAM has zero bytes (every access faults).
    pub fn is_empty(&self) -> (r: bool)
        ensures r == (self@.bytes.len() == 0),
    {
        self.data.len() == 0
    }

    /// Base guest physical address of this RAM.
    pub fn base(&self) -> (r: u64)
        ensures r == self@.base,
    {
        self.base
    }

    /// Whether every byte of `[addr, addr + len)` lies in this RAM.
    pub fn ram_contains(&self, addr: u64, len: u64) -> (r: bool)
        ensures r == (ram_range(self@, addr, len as nat) is Ok),
    {
        self.range(addr, len).is_ok()
    }

    /// Bounds-check an access and return the starting offset into `data`.
    fn index(&self, addr: u64, width: u64) -> (r: Result<usize, BusFault>)
        requires valid_width(width as nat),
        ensures
            r matches Ok(i) ==> ram_index(self@, addr, width as nat) == Ok::<int, BusFault>(i as int)
                && i + width <= self@.bytes.len(),
            r matches Err(e) ==> ram_index(self@, addr, width as nat) == Err::<int, BusFault>(e),
    {
        let dlen = self.data.len();
        proof { lemma_usize_fits_u64(dlen as nat); }
        if addr < self.base {
            return Err(BusFault::Access);
        }
        let off = addr - self.base;
        let end = match off.checked_add(width) {
            Some(e) => e,
            None => return Err(BusFault::Access),
        };
        if end > self.data.len() as u64 {
            return Err(BusFault::Access);
        }
        let m = width - 1;
        assert(width == 1 || width == 2 || width == 4 || width == 8);
        assert(m == width - 1);
        assert((m == 0 ==> addr & m == 0)
            && (m == 1 ==> (addr & m == 0 <==> addr % 2 == 0))
            && (m == 3 ==> (addr & m == 0 <==> addr % 4 == 0))
            && (m == 7 ==> (addr & m == 0 <==> addr % 8 == 0))) by (bit_vector);
        if addr & m != 0 {
            return Err(BusFault::Misaligned);
        }
        Ok(off as usize)
    }

    /// Range-check (no alignment requirement) for byte-granular slice access.
    fn range(&self, addr: u64, len: u64) -> (r: Result<usize, BusFault>)
        ensures
            r matches Ok(i) ==> ram_range(self@, addr, len as nat) == Ok::<int, BusFault>(i as int)
                && i + len <= self@.bytes.len(),
            r matches Err(e) ==> ram_range(self@, addr, len as nat) == Err::<int, BusFault>(e),
    {
        let dlen = self.data.len();
        proof { lemma_usize_fits_u64(dlen as nat); }
        if addr < self.base {
            return Err(BusFault::Access);
        }
        let off = addr - self.base;
        let end = match off.checked_add(len) {
            Some(e) => e,
            None => return Err(BusFault::Access),
        };
        if end > self.data.len() as u64 {
            return Err(BusFault::Access);
        }
        Ok(off as usize)
    }

    /// Loader escape hatch: copy out `buf.len()` bytes starting at `addr`. Byte-granular (no
    /// alignment requirement); fails `Access` without partial reads.
    pub fn read_slice(&self, addr: u64, buf: &mut [u8]) -> (r: Result<(), BusFault>)
        ensures
            match ram_range(self@, addr, old(buf)@.len()) {
                Ok(off) => r is Ok && final(buf)@ == self@.bytes.subrange(off, off + old(buf)@.len()),
                Err(e) => r == Err::<(), BusFault>(e) && final(buf)@ == old(buf)@,
            },
    {
        let n = buf.len();
        let dlen = self.data.len();
        let off = self.range(addr, n as u64)?;
        let mut k: usize = 0;
        while k < n
            invariant
                n == buf@.len(),
                ram_range(self@, addr, n as nat) == Ok::<int, BusFault>(off as int),
                off + n <= self@.bytes.len(),
                dlen == self@.bytes.len(),
                forall|j: int| 0 <= j < k ==> buf@[j] == self@.bytes[off + j],
            decreases n - k,
        {
            buf[k] = self.data[off + k];
            k += 1;
        }
        assert(buf@ =~= self@.bytes.subrange(off as int, off + n));
        Ok(())
    }

    /// The byte a load at `addr` would read, without an access.
    fn peek8(&self, addr: u64) -> (r: Result<u8, BusFault>)
        ensures res8(r) == ram_load(self@, addr, 1),
    {
        match self.load_n(addr, 1) {
            Ok(v) => {
                assert(v < 256) by { lemma_le_value_bound(self@.bytes, addr, 1); }
                Ok(v as u8)
            }
            Err(e) => Err(e),
        }
    }

    /// The 32-bit word a load at `addr` would read, without an access: RAM reads have no side
    /// effects.
    pub fn peek32(&self, addr: u64) -> (r: Result<u32, BusFault>)
        ensures res32(r) == ram_load(self@, addr, 4),
    {
        let r = self.load_n(addr, 4);
        match r {
            Ok(v) => {
                let ghost off = ram_index(self@, addr, 4)->Ok_0;
                assert(v <= 0xffff_ffff) by {
                    let b0 = self@.bytes[off];
                    let b1 = self@.bytes[off + 1];
                    let b2 = self@.bytes[off + 2];
                    let b3 = self@.bytes[off + 3];
                    assert((b0 as u64) | ((b1 as u64) << 8u64) | ((b2 as u64) << 16u64)
                        | ((b3 as u64) << 24u64) <= 0xffff_ffff) by (bit_vector);
                }
                Ok(v as u32)
            }
            Err(e) => Err(e),
        }
    }

    /// The whole RAM byte array in address order (offset 0 == guest addr `base`).
    pub fn as_bytes(&self) -> (r: &[u8])
        ensures r@ == self@.bytes,
    {
        self.data.as_slice()
    }

    /// Loader escape hatch: copy `data` into RAM starting at `addr`. Byte-granular; fails
    /// `Access` without partial writes.
    pub fn write_slice(&mut self, addr: u64, data: &[u8]) -> (r: Result<(), BusFault>)
        ensures
            final(self)@.base == old(self)@.base,
            match ram_range(old(self)@, addr, data@.len()) {
                Ok(off) => r is Ok && final(self)@.bytes == splice(old(self)@.bytes, off, data@),
                Err(e) => r == Err::<(), BusFault>(e) && final(self)@ == old(self)@,
            },
    {
        let n = data.len();
        let dlen = self.data.len();
        let off = self.range(addr, n as u64)?;
        let ghost old_bytes = self.data@;
        let mut k: usize = 0;
        while k < n
            invariant
                n == data@.len(),
                k <= n,
                self.base == old(self).base,
                self.data@.len() == old_bytes.len(),
                old_bytes == old(self)@.bytes,
                off + n <= old_bytes.len(),
                dlen == old_bytes.len(),
                ram_range(old(self)@, addr, n as nat) == Ok::<int, BusFault>(off as int),
                forall|j: int| 0 <= j < self.data@.len() ==> #[trigger] self.data@[j] == if off <= j < off + k { data@[j - off] } else { old_bytes[j] },
            decreases n - k,
        {
            self.data.set(off + k, data[k]);
            k += 1;
        }
        assert(self@.bytes =~= splice(old_bytes, off as int, data@));
        Ok(())
    }

    fn load_n(&self, addr: u64, width: u64) -> (r: Result<u64, BusFault>)
        requires valid_width(width as nat),
        ensures r == ram_load(self@, addr, width as nat),
    {
        let dlen = self.data.len();
        let i = self.index(addr, width)?;
        let d = &self.data;
        if width == 1 {
            Ok(d[i] as u64)
        } else if width == 2 {
            Ok((d[i] as u64) | ((d[i + 1] as u64) << 8u64))
        } else if width == 4 {
            Ok((d[i] as u64) | ((d[i + 1] as u64) << 8u64) | ((d[i + 2] as u64) << 16u64)
                | ((d[i + 3] as u64) << 24u64))
        } else {
            Ok((d[i] as u64) | ((d[i + 1] as u64) << 8u64) | ((d[i + 2] as u64) << 16u64)
                | ((d[i + 3] as u64) << 24u64) | ((d[i + 4] as u64) << 32u64)
                | ((d[i + 5] as u64) << 40u64) | ((d[i + 6] as u64) << 48u64)
                | ((d[i + 7] as u64) << 56u64))
        }
    }

    fn store_n(&mut self, addr: u64, width: u64, val: u64) -> (r: Result<(), BusFault>)
        requires valid_width(width as nat),
        ensures
            r == (match ram_index(old(self)@, addr, width as nat) { Ok(_) => Ok(()), Err(e) => Err(e) }),
            final(self)@.base == old(self)@.base,
            final(self)@.bytes == ram_store(old(self)@, addr, width as nat, val),
    {
        let dlen = self.data.len();
        let i = self.index(addr, width)?;
        let ghost old_bytes = self.data@;
        let mut k: u64 = 0;
        while k < width
            invariant
                valid_width(width as nat),
                k <= width,
                i + width <= old_bytes.len(),
                dlen == old_bytes.len(),
                self.base == old(self).base,
                old_bytes == old(self)@.bytes,
                self.data@.len() == old_bytes.len(),
                forall|j: int| 0 <= j < self.data@.len() ==> #[trigger] self.data@[j] == if i <= j < i + k { byte_of(val, j - i) } else { old_bytes[j] },
            decreases width - k,
        {
            let b = ((val >> (8 * k)) & 0xff) as u8;
            assert(i + k < dlen);
            self.data.set(i + k as usize, b);
            k += 1;
        }
        assert(self@.bytes =~= write_le(old_bytes, i as int, width as nat, val));
        Ok(())
    }
}

impl Bus for Ram {
    open spec fn load_value(&self, addr: u64, width: nat) -> Result<u64, BusFault> {
        ram_load(self@, addr, width)
    }

    open spec fn load_post(&self, post: &Self, addr: u64, width: nat) -> bool {
        post@ == self@
    }

    open spec fn store_result(&self, addr: u64, width: nat, value: u64) -> Result<(), BusFault> {
        match ram_index(self@, addr, width) { Ok(_) => Ok(()), Err(e) => Err(e) }
    }

    open spec fn store_post(&self, post: &Self, addr: u64, width: nat, value: u64) -> bool {
        post@.base == self@.base && post@.bytes == ram_store(self@, addr, width, value)
    }

    fn load8(&mut self, addr: u64) -> (r: Result<u8, BusFault>) {
        let r = self.peek8(addr);
        assert(res8(r) == ram_load(old(self)@, addr, 1));
        assert(old(self).load_value(addr, 1) == ram_load(old(self)@, addr, 1));
        assert(old(self).load_post(self, addr, 1));
        r
    }

    fn load16(&mut self, addr: u64) -> (r: Result<u16, BusFault>) {
        let r = self.load_n(addr, 2);
        match r {
            Ok(v) => {
                let ghost off = ram_index(self@, addr, 2)->Ok_0;
                assert(v <= 0xffff) by {
                    let b0 = self@.bytes[off];
                    let b1 = self@.bytes[off + 1];
                    assert((b0 as u64) | ((b1 as u64) << 8u64) <= 0xffff) by (bit_vector);
                }
                Ok(v as u16)
            }
            Err(e) => Err(e),
        }
    }

    fn load32(&mut self, addr: u64) -> (r: Result<u32, BusFault>) {
        self.peek32(addr)
    }

    fn load64(&mut self, addr: u64) -> (r: Result<u64, BusFault>) {
        self.load_n(addr, 8)
    }

    fn store8(&mut self, addr: u64, val: u8) -> (r: Result<(), BusFault>) {
        self.store_n(addr, 1, val as u64)
    }

    fn store16(&mut self, addr: u64, val: u16) -> (r: Result<(), BusFault>) {
        self.store_n(addr, 2, val as u64)
    }

    fn store32(&mut self, addr: u64, val: u32) -> (r: Result<(), BusFault>) {
        self.store_n(addr, 4, val as u64)
    }

    fn store64(&mut self, addr: u64, val: u64) -> (r: Result<(), BusFault>) {
        self.store_n(addr, 8, val)
    }
}

pub proof fn lemma_usize_fits_u64(n: nat)
    requires n <= usize::MAX,
    ensures n <= u64::MAX,
{
}

proof fn lemma_le_value_bound(s: Seq<u8>, addr: u64, width: nat)
    requires width == 1,
    ensures forall|off: int| #[trigger] le_value(s, off, width) < 256,
{
}

} // verus!
