//! MMIO dispatch: [`SystemBus`] implements [`Bus`] by routing each access either to guest RAM or
//! to an attached [`MmioDevice`] window.
//!
//! Routing policy: an access routes to a region only when every byte of it lies inside that
//! region; a straddling access faults `Access` and the device is never invoked. Containment is
//! checked before alignment. Unmapped holes fault `Access` at every width. Device read results
//! are masked to the access width. RAM is tried first: its `Access` fault means "not fully inside
//! RAM", which is exactly the fall-to-devices condition (windows never overlap RAM).

use vstd::prelude::*;
use crate::bus::{Bus, BusFault, valid_width, res8, res16, res32};
use crate::ram::{Ram, RamView, ram_load, ram_store, ram_index};

verus! {

/// MMIO access width. Devices receive the architectural width of the access.
#[derive(Debug, Clone, Copy, PartialEq, Eq)]
pub enum Width {
    B1,
    B2,
    B4,
    B8,
}

/// Width in bytes.
pub open spec fn width_bytes(w: Width) -> nat {
    match w { Width::B1 => 1, Width::B2 => 2, Width::B4 => 4, Width::B8 => 8 }
}

/// The value mask of a width (`B8` masks nothing).
pub open spec fn width_mask(w: Width) -> u64 {
    match w { Width::B1 => 0xFF, Width::B2 => 0xFFFF, Width::B4 => 0xFFFF_FFFF, Width::B8 => u64::MAX }
}

/// The width of `n` bytes.
pub open spec fn width_of(n: nat) -> Width {
    if n == 1 { Width::B1 } else if n == 2 { Width::B2 } else if n == 4 { Width::B4 } else { Width::B8 }
}

impl Width {
    /// Width in bytes.
    pub fn bytes(self) -> (r: u64)
        ensures r == width_bytes(self),
    {
        match self { Width::B1 => 1, Width::B2 => 2, Width::B4 => 4, Width::B8 => 8 }
    }

    /// Value mask for this width (`B8` masks nothing).
    pub fn mask(self) -> (r: u64)
        ensures r == width_mask(self),
    {
        match self {
            Width::B1 => 0xFF,
            Width::B2 => 0xFFFF,
            Width::B4 => 0xFFFF_FFFF,
            Width::B8 => u64::MAX,
        }
    }
}

/// A memory-mapped device. Offsets are window-relative. Each implementation states what a read
/// returns and what a write reports in a given device state.
pub trait MmioDevice {
    /// What a read of `width` at `offset` returns in this state.
    spec fn read_value(&self, offset: u64, width: Width) -> Result<u64, BusFault>;
    /// What a write of `value` at `offset` reports in this state.
    spec fn write_result(&self, offset: u64, width: Width, value: u64) -> Result<(), BusFault>;

    fn read(&mut self, offset: u64, width: Width) -> (r: Result<u64, BusFault>)
        ensures r == old(self).read_value(offset, width),
    ;

    fn write(&mut self, offset: u64, width: Width, value: u64) -> (r: Result<(), BusFault>)
        ensures r == old(self).write_result(offset, width, value),
    ;
}

/// Why [`SystemBus::attach`] rejected a window.
#[derive(Debug, Clone, Copy, PartialEq, Eq)]
pub enum AttachError {
    /// Zero-length windows are meaningless and would never match an access.
    ZeroLength,
    /// `base + len` does not fit in the u64 address space (end-exclusive bound).
    AddressOverflow,
    /// The window overlaps guest RAM or an already-attached device window.
    Overlap,
}

struct Window<D> {
    start: u64,
    /// Inclusive last byte.
    last: u64,
    dev: D,
}

/// The system bus: guest RAM plus attached MMIO device windows.
pub struct SystemBus<D> {
    ram: Ram,
    windows: Vec<Window<D>>,
}

/// True when every byte of `[addr, addr + width)` lies in `[start, last]`.
pub open spec fn window_contains(start: u64, last: u64, addr: u64, width: nat) -> bool {
    start <= addr && addr <= last && width - 1 <= last - addr
}

/// The first window (lowest attach order) that fully contains the access, scanning from `i`.
pub open spec fn first_window_from(ws: Seq<(u64, u64)>, addr: u64, width: nat, i: int) -> Option<int>
    decreases ws.len() - i,
{
    if i < 0 || i >= ws.len() {
        None
    } else if window_contains(ws[i].0, ws[i].1, addr, width) {
        Some(i)
    } else {
        first_window_from(ws, addr, width, i + 1)
    }
}

/// A window found by the scan is in range and really contains the access.
pub proof fn lemma_first_window_in_range(ws: Seq<(u64, u64)>, addr: u64, width: nat, i: int)
    requires 0 <= i,
    ensures
        first_window_from(ws, addr, width, i) matches Some(j) ==> i <= j < ws.len()
            && window_contains(ws[j].0, ws[j].1, addr, width),
    decreases ws.len() - i,
{
    if i < ws.len() && !window_contains(ws[i].0, ws[i].1, addr, width) {
        lemma_first_window_in_range(ws, addr, width, i + 1);
    }
}

/// The first window that fully contains the access.
pub open spec fn first_window(ws: Seq<(u64, u64)>, addr: u64, width: nat) -> Option<int> {
    first_window_from(ws, addr, width, 0)
}

/// Whether `[a0, a1)` and `[b0, b1)` share a byte.
pub open spec fn spans_overlap(a0: int, a1: int, b0: int, b1: int) -> bool {
    a0 < b1 && b0 < a1
}

/// The outcome of attaching `[base, base + len)` to a bus with RAM `ram` and windows `ws`.
pub open spec fn attach_result(ram: RamView, ws: Seq<(u64, u64)>, base: u64, len: u64) -> Result<(), AttachError> {
    if len == 0 {
        Err(AttachError::ZeroLength)
    } else if base + len > u64::MAX {
        Err(AttachError::AddressOverflow)
    } else if ram.bytes.len() != 0 && spans_overlap(base as int, base + len, ram.base as int, ram.base + ram.bytes.len()) {
        Err(AttachError::Overlap)
    } else if exists|i: int| 0 <= i < ws.len() && spans_overlap(base as int, base + len, ws[i].0 as int, ws[i].1 + 1) {
        Err(AttachError::Overlap)
    } else {
        Ok(())
    }
}

impl<D: MmioDevice> SystemBus<D> {
    /// The RAM behind this bus.
    pub closed spec fn ram_view(&self) -> RamView {
        self.ram@
    }

    /// The attached windows, as `(first byte, last byte)`, in attach order.
    pub closed spec fn windows_view(&self) -> Seq<(u64, u64)> {
        self.windows@.map_values(|w: Window<D>| (w.start, w.last))
    }

    /// The device behind window `i`.
    pub closed spec fn device_view(&self, i: int) -> D {
        self.windows@[i].dev
    }

    /// A bus over `ram` with no devices attached.
    pub fn new(ram: Ram) -> (r: Self)
        ensures r.ram_view() == ram@, r.windows_view() == Seq::<(u64, u64)>::empty(),
    {
        let r = Self { ram, windows: Vec::new() };
        assert(r.windows_view() =~= Seq::<(u64, u64)>::empty());
        r
    }

    /// Attach `dev` at `[base, base + len)`. Rejects zero-length windows, windows whose end
    /// overflows the address space, and windows overlapping RAM or another device.
    pub fn attach(&mut self, base: u64, len: u64, dev: D) -> (r: Result<(), AttachError>)
        ensures
            r == attach_result(old(self).ram_view(), old(self).windows_view(), base, len),
            final(self).ram_view() == old(self).ram_view(),
            r is Ok ==> final(self).windows_view() == old(self).windows_view().push((base, (base + len - 1) as u64))
                && final(self).device_view(old(self).windows_view().len() as int) == dev
                && forall|i: int| 0 <= i < old(self).windows_view().len() ==> final(self).device_view(i) == old(self).device_view(i),
            r is Err ==> final(self).windows_view() == old(self).windows_view()
                && forall|i: int| 0 <= i < old(self).windows_view().len() ==> final(self).device_view(i) == old(self).device_view(i),
    {
        if len == 0 {
            return Err(AttachError::ZeroLength);
        }
        let end = match base.checked_add(len) {
            Some(e) => e,
            None => return Err(AttachError::AddressOverflow),
        };
        let last = end - 1;
        let new0 = base as u128;
        let new1 = base as u128 + len as u128;
        if !self.ram.is_empty() {
            let r0 = self.ram.base() as u128;
            let r1 = self.ram.base() as u128 + self.ram.len() as u128;
            if new0 < r1 && r0 < new1 {
                return Err(AttachError::Overlap);
            }
        }
        let n = self.windows.len();
        let mut k: usize = 0;
        while k < n
            invariant
                n == self.windows@.len(),
                n == old(self).windows@.len(),
                *self == *old(self),
                new0 == base, new1 == base + len,
                len != 0, base + len <= u64::MAX,
                !(self.ram_view().bytes.len() != 0 && spans_overlap(base as int, base + len, self.ram_view().base as int, self.ram_view().base + self.ram_view().bytes.len())),
                forall|i: int| 0 <= i < k ==> !spans_overlap(base as int, base + len, self.windows_view()[i].0 as int, self.windows_view()[i].1 + 1),
            decreases n - k,
        {
            assert(self.windows_view()[k as int] == (self.windows@[k as int].start, self.windows@[k as int].last));
            let e0 = self.windows[k].start as u128;
            let e1 = self.windows[k].last as u128 + 1;
            if new0 < e1 && e0 < new1 {
                assert(spans_overlap(base as int, base + len, self.windows_view()[k as int].0 as int, self.windows_view()[k as int].1 + 1));
                return Err(AttachError::Overlap);
            }
            k += 1;
        }
        self.windows.push(Window { start: base, last, dev });
        assert(self.windows_view() =~= old(self).windows_view().push((base, (base + len - 1) as u64)));
        Ok(())
    }

    /// The RAM behind this bus.
    pub fn ram(&self) -> (r: &Ram)
        ensures r@ == self.ram_view(),
    {
        &self.ram
    }

    /// Mutable access to RAM for loaders and test rigs. Windows are untouched.
    pub fn ram_mut(&mut self) -> (r: &mut Ram)
        ensures
            r@ == old(self).ram_view(),
            final(self).ram_view() == final(r)@,
            final(self).windows_view() == old(self).windows_view(),
            forall|i: int| 0 <= i < old(self).windows_view().len() ==> final(self).device_view(i) == old(self).device_view(i),
    {
        &mut self.ram
    }

    /// Number of attached windows.
    pub fn window_count(&self) -> (r: usize)
        ensures r == self.windows_view().len(),
    {
        self.windows.len()
    }

    /// The device behind window `i` (attach order).
    pub fn device(&self, i: usize) -> (r: &D)
        requires i < self.windows_view().len(),
        ensures *r == self.device_view(i as int),
    {
        &self.windows[i].dev
    }

    /// Whether `[addr, addr + len)` lies in RAM (only RAM supports misaligned accesses).
    pub fn ram_contains(&self, addr: u64, len: u64) -> (r: bool)
        ensures r == (crate::ram::ram_range(self.ram_view(), addr, len as nat) is Ok),
    {
        self.ram.ram_contains(addr, len)
    }

    /// Index of the first window fully containing the access.
    fn find_window(&self, addr: u64, w: u64) -> (r: Option<usize>)
        requires valid_width(w as nat),
        ensures
            match first_window(self.windows_view(), addr, w as nat) {
                Some(i) => r is Some && r->0 as int == i && 0 <= i < self.windows@.len()
                    && window_contains(self.windows@[i].start, self.windows@[i].last, addr, w as nat),
                None => r is None,
            },
    {
        proof { lemma_first_window_in_range(self.windows_view(), addr, w as nat, 0); }
        let n = self.windows.len();
        let mut k: usize = 0;
        proof {
            let ws = self.windows_view();
            if let Some(j) = first_window(ws, addr, w as nat) {
                assert(ws[j] == (self.windows@[j].start, self.windows@[j].last));
            }
        }
        while k < n
            invariant
                n == self.windows@.len(),
                valid_width(w as nat),
                first_window(self.windows_view(), addr, w as nat) == first_window_from(self.windows_view(), addr, w as nat, k as int),
            decreases n - k,
        {
            let win = &self.windows[k];
            assert(self.windows_view()[k as int] == (win.start, win.last));
            if addr >= win.start && addr <= win.last && w - 1 <= win.last - addr {
                return Some(k);
            }
            k += 1;
        }
        None
    }

    /// Full containment → alignment → device read, masked to width.
    fn load_device(&mut self, addr: u64, width: Width) -> (r: Result<u64, BusFault>)
        ensures
            r == device_load(*old(self), addr, width_bytes(width)),
            final(self).ram_view() == old(self).ram_view(),
            final(self).windows_view() == old(self).windows_view(),
    {
        let w = width.bytes();
        let found = self.find_window(addr, w);
        let idx = match found {
            Some(i) => i,
            None => return Err(BusFault::Access),
        };
        let ghost fw = first_window(self.windows_view(), addr, w as nat);
        assert(fw is Some);
        assert(fw->0 == idx as int);
        proof { crate::bus::lemma_align_mask(addr, w); }
        if addr & (w - 1) != 0 {
            return Err(BusFault::Misaligned);
        }
        let start = self.windows[idx].start;
        let ghost old_windows = self.windows_view();
        proof {
            assert(window_contains(self.windows@[idx as int].start, self.windows@[idx as int].last, addr, w as nat));
            assert(old_windows[idx as int] == (self.windows@[idx as int].start, self.windows@[idx as int].last));
            assert(width_of(width_bytes(width)) == width);
        }
        let res = self.windows[idx].dev.read(addr - start, width);
        assert(self.windows_view() =~= old_windows);
        match res {
            Ok(v) => Ok(v & width.mask()),
            Err(e) => Err(e),
        }
    }

    /// Full containment → alignment → device write.
    fn store_device(&mut self, addr: u64, width: Width, value: u64) -> (r: Result<(), BusFault>)
        ensures
            r == device_store(*old(self), addr, width_bytes(width), value),
            final(self).ram_view() == old(self).ram_view(),
            final(self).windows_view() == old(self).windows_view(),
    {
        let w = width.bytes();
        let found = self.find_window(addr, w);
        let idx = match found {
            Some(i) => i,
            None => return Err(BusFault::Access),
        };
        let ghost fw = first_window(self.windows_view(), addr, w as nat);
        assert(fw is Some);
        assert(fw->0 == idx as int);
        proof { crate::bus::lemma_align_mask(addr, w); }
        if addr & (w - 1) != 0 {
            return Err(BusFault::Misaligned);
        }
        let start = self.windows[idx].start;
        let ghost old_windows = self.windows_view();
        proof {
            assert(window_contains(self.windows@[idx as int].start, self.windows@[idx as int].last, addr, w as nat));
            assert(old_windows[idx as int] == (self.windows@[idx as int].start, self.windows@[idx as int].last));
            assert(width_of(width_bytes(width)) == width);
        }
        let res = self.windows[idx].dev.write(addr - start, width, value);
        assert(self.windows_view() =~= old_windows);
        res
    }
}

/// What a device-path load yields: the first containing window's device, read at the
/// window-relative offset, masked to the width; `Access` for a hole, `Misaligned` when unaligned.
pub open spec fn device_load<D: MmioDevice>(b: SystemBus<D>, addr: u64, w: nat) -> Result<u64, BusFault> {
    match first_window(b.windows_view(), addr, w) {
        None => Err(BusFault::Access),
        Some(i) => if (addr as int) % (w as int) != 0 {
            Err(BusFault::Misaligned)
        } else {
            match b.device_view(i).read_value((addr - b.windows_view()[i].0) as u64, width_of(w)) {
                Ok(v) => Ok(v & width_mask(width_of(w))),
                Err(e) => Err(e),
            }
        },
    }
}

/// What a device-path store reports.
pub open spec fn device_store<D: MmioDevice>(b: SystemBus<D>, addr: u64, w: nat, value: u64) -> Result<(), BusFault> {
    match first_window(b.windows_view(), addr, w) {
        None => Err(BusFault::Access),
        Some(i) => if (addr as int) % (w as int) != 0 {
            Err(BusFault::Misaligned)
        } else {
            b.device_view(i).write_result((addr - b.windows_view()[i].0) as u64, width_of(w), value)
        },
    }
}

impl<D: MmioDevice> Bus for SystemBus<D> {
    open spec fn load_value(&self, addr: u64, width: nat) -> Result<u64, BusFault> {
        match ram_load(self.ram_view(), addr, width) {
            Err(BusFault::Access) => device_load(*self, addr, width),
            r => r,
        }
    }

    open spec fn load_post(&self, post: &Self, addr: u64, width: nat) -> bool {
        post.ram_view() == self.ram_view() && post.windows_view() == self.windows_view()
    }

    open spec fn store_result(&self, addr: u64, width: nat, value: u64) -> Result<(), BusFault> {
        match ram_index(self.ram_view(), addr, width) {
            Ok(_) => Ok(()),
            Err(BusFault::Access) => device_store(*self, addr, width, value),
            Err(e) => Err(e),
        }
    }

    open spec fn store_post(&self, post: &Self, addr: u64, width: nat, value: u64) -> bool {
        post.ram_view().base == self.ram_view().base
            && post.ram_view().bytes == ram_store(self.ram_view(), addr, width, value)
            && post.windows_view() == self.windows_view()
    }

    fn load8(&mut self, addr: u64) -> (r: Result<u8, BusFault>) {
        match self.ram.load8(addr) {
            Err(BusFault::Access) => match self.load_device(addr, Width::B1) {
                Ok(v) => {
                    assert(forall|x: u64| #[trigger] ((x & 0xff) as u8 as u64) == x & 0xff) by (bit_vector);
                    Ok(v as u8)
                }
                Err(e) => Err(e),
            },
            ram_result => ram_result,
        }
    }

    fn load16(&mut self, addr: u64) -> (r: Result<u16, BusFault>) {
        match self.ram.load16(addr) {
            Err(BusFault::Access) => match self.load_device(addr, Width::B2) {
                Ok(v) => {
                    assert(forall|x: u64| #[trigger] ((x & 0xffff) as u16 as u64) == x & 0xffff) by (bit_vector);
                    Ok(v as u16)
                }
                Err(e) => Err(e),
            },
            ram_result => ram_result,
        }
    }

    fn load32(&mut self, addr: u64) -> (r: Result<u32, BusFault>) {
        match self.ram.load32(addr) {
            Err(BusFault::Access) => match self.load_device(addr, Width::B4) {
                Ok(v) => {
                    assert(forall|x: u64| #[trigger] ((x & 0xffff_ffff) as u32 as u64) == x & 0xffff_ffff) by (bit_vector);
                    Ok(v as u32)
                }
                Err(e) => Err(e),
            },
            ram_result => ram_result,
        }
    }

    fn load64(&mut self, addr: u64) -> (r: Result<u64, BusFault>) {
        match self.ram.load64(addr) {
            Err(BusFault::Access) => self.load_device(addr, Width::B8),
            ram_result => ram_result,
        }
    }

    fn store8(&mut self, addr: u64, val: u8) -> (r: Result<(), BusFault>) {
        match self.ram.store8(addr, val) {
            Err(BusFault::Access) => self.store_device(addr, Width::B1, val as u64),
            ram_result => ram_result,
        }
    }

    fn store16(&mut self, addr: u64, val: u16) -> (r: Result<(), BusFault>) {
        match self.ram.store16(addr, val) {
            Err(BusFault::Access) => self.store_device(addr, Width::B2, val as u64),
            ram_result => ram_result,
        }
    }

    fn store32(&mut self, addr: u64, val: u32) -> (r: Result<(), BusFault>) {
        match self.ram.store32(addr, val) {
            Err(BusFault::Access) => self.store_device(addr, Width::B4, val as u64),
            ram_result => ram_result,
        }
    }

    fn store64(&mut self, addr: u64, val: u64) -> (r: Result<(), BusFault>) {
        match self.ram.store64(addr, val) {
            Err(BusFault::Access) => self.store_device(addr, Width::B8, val),
            ram_result => ram_result,
        }
    }
}

/// Everything a [`RecordingDevice`] captured.
pub struct RecordingLog {
    pub reads: Vec<(u64, Width)>,
    pub writes: Vec<(u64, Width, u64)>,
}

impl RecordingLog {
    /// An empty log.
    pub fn new() -> (r: Self)
        ensures r.reads@.len() == 0, r.writes@.len() == 0,
    {
        RecordingLog { reads: Vec::new(), writes: Vec::new() }
    }
}

/// Test double: records every call it receives; reads return a fixed value.
pub struct RecordingDevice {
    log: RecordingLog,
    read_value: u64,
}

impl RecordingDevice {
    /// A device whose reads all return `read_value`, with an empty log.
    pub fn new(read_value: u64) -> (r: Self)
        ensures r.fixed_value() == read_value, r.reads_view().len() == 0, r.writes_view().len() == 0,
    {
        RecordingDevice { log: RecordingLog::new(), read_value }
    }

    /// The value every read returns.
    pub closed spec fn fixed_value(&self) -> u64 { self.read_value }

    /// The reads recorded so far, in order.
    pub closed spec fn reads_view(&self) -> Seq<(u64, Width)> { self.log.reads@ }

    /// The writes recorded so far, in order.
    pub closed spec fn writes_view(&self) -> Seq<(u64, Width, u64)> { self.log.writes@ }

    /// The calls recorded so far.
    pub fn log(&self) -> (r: &RecordingLog)
        ensures r.reads@ == self.reads_view(), r.writes@ == self.writes_view(),
    {
        &self.log
    }
}

impl MmioDevice for RecordingDevice {
    open spec fn read_value(&self, offset: u64, width: Width) -> Result<u64, BusFault> {
        Ok(self.fixed_value())
    }

    open spec fn write_result(&self, offset: u64, width: Width, value: u64) -> Result<(), BusFault> {
        Ok(())
    }

    fn read(&mut self, offset: u64, width: Width) -> (r: Result<u64, BusFault>)
        ensures
            final(self).reads_view() == old(self).reads_view().push((offset, width)),
            final(self).writes_view() == old(self).writes_view(),
            final(self).fixed_value() == old(self).fixed_value(),
    {
        self.log.reads.push((offset, width));
        Ok(self.read_value)
    }

    fn write(&mut self, offset: u64, width: Width, value: u64) -> (r: Result<(), BusFault>)
        ensures
            final(self).writes_view() == old(self).writes_view().push((offset, width, value)),
            final(self).reads_view() == old(self).reads_view(),
            final(self).fixed_value() == old(self).fixed_value(),
    {
        self.log.writes.push((offset, width, value));
        Ok(())
    }
}

/// A RAM access that succeeds or faults `Misaligned` never reaches a device: its result is the
/// RAM's own, whatever devices are attached.
pub proof fn lemma_ram_accesses_pass_through<D: MmioDevice>(b: SystemBus<D>, addr: u64, width: nat)
    requires ram_load(b.ram_view(), addr, width) != Err::<u64, BusFault>(BusFault::Access),
    ensures b.load_value(addr, width) == ram_load(b.ram_view(), addr, width),
{
}

/// An access that no window fully contains (a hole, or one straddling a window edge) and that is
/// not in RAM faults `Access`: no device is consulted.
pub proof fn lemma_unmapped_faults_access<D: MmioDevice>(b: SystemBus<D>, addr: u64, width: nat, value: u64)
    requires
        ram_index(b.ram_view(), addr, width) == Err::<int, BusFault>(BusFault::Access),
        first_window(b.windows_view(), addr, width) is None,
    ensures
        b.load_value(addr, width) == Err::<u64, BusFault>(BusFault::Access),
        b.store_result(addr, width, value) == Err::<(), BusFault>(BusFault::Access),
{
}

} // verus!
