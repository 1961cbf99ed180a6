//! A machine: one hart on a system bus with guest RAM at `DRAM_BASE`, an optional HTIF exit
//! watch, the always-on interrupt/trap counters, and the sampling profiler.
//!
//! This machine has no CSR file, so a trap is never delivered to a guest handler: it ends the run
//! and is surfaced to the host as [`RunOutcome::Trapped`], with the hart exactly as it was
//! before the trapping instruction.

use vstd::prelude::*;

pub mod checkpoint;
pub mod jit_exit;

use vstd::string::StringExecFns;
use crate::bus::{Bus, BusFault};
use crate::diag::irqstats::IrqStats;
use crate::hart::{effect, executed, fetched_step, fetched_step_mem, mem_result, unit_result, Effect, Exception, Hart, Trap};
use crate::hart::regs::XRegs;
use crate::htif::{decode_spec, Htif, HtifStatus};
use crate::loader::{self, ElfError, LoadedImage};
use crate::mmio::{MmioDevice, SystemBus};
use crate::platform::virt;
use crate::prof::ProfStats;
use crate::ram::{le_value, ram_range, splice, OutOfMemory, Ram};
use crate::text::{digit_char, digit_str, digits, push_digits};
use crate::trace::{MemOp, NullSink, TraceRecord, TraceSink};
use crate::decode::{decode, instr_wf, DecodeError, Instr};
use crate::dispatch::{is_terminator, BlockCache, BlockDiscovery, BlockModel, DecodedBlock, DiscoveryStats, MicroOp, TranslationRequest, MAX_BLOCK_OPS};
use crate::dispatch::cache::live;
use crate::dispatch::discovery::{bounded, DiscoveryModel};
use crate::ram::{ram_load, RamView};

verus! {

/// The base PC-sampling stride: a prime near 1024, so about one retire in 1024 is sampled.
const PROF_STRIDE_BASE: u32 = 1021;
/// Jitter span added to [`PROF_STRIDE_BASE`] for each sample (stride in `1021..=1148`).
const PROF_STRIDE_JITTER: u32 = 128;

/// Slots of the block cache a machine starts with.
pub const BLOCK_CACHE_SLOTS: usize = 4096;

/// Op `op` is the instruction RAM holds at `a`: the aligned word there decodes to it, it is four
/// bytes long, and it lies inside page frame `frame`.
pub open spec fn op_in_ram(op: MicroOp, a: int, frame: u64, ram: RamView) -> bool {
    &&& frame * 4096 <= a && a + 4 <= (frame + 1) * 4096 && a + 4 <= 0x1_0000_0000_0000_0000
    &&& ram_load(ram, a as u64, 4) == Ok::<u64, BusFault>(op.raw as u64)
    &&& crate::decode::decode_spec(op.raw) == Ok::<Instr, DecodeError>(op.instr)
    &&& instr_wf(op.instr)
    &&& op.len == 4
}

/// The aligned RAM word at `a` decodes to an instruction.
pub open spec fn ram_word_decodes(ram: RamView, a: u64) -> bool {
    ram_load(ram, a, 4) matches Ok(w) && crate::decode::decode_spec(w as u32) is Ok
}

/// What the HTIF watch on `addr` reads from `bus`: the decoded `tohost` word, `Idle` on a fault.
pub open spec fn tohost_status<D: MmioDevice>(bus: SystemBus<D>, addr: u64) -> HtifStatus {
    match bus.load_value(addr, 8) {
        Ok(v) => decode_spec(v),
        Err(_) => HtifStatus::Idle,
    }
}

/// Block `b` is what RAM holds now: op `k` is the instruction at `phys_start + 4k`, all in the
/// block's page frame.
pub open spec fn block_in_ram(b: BlockModel, ram: RamView) -> bool {
    &&& b.ops.len() >= 1
    &&& forall|k: int| 0 <= k < b.ops.len() ==> op_in_ram(#[trigger] b.ops[k], b.phys_start + 4 * k, b.page_frame, ram)
}

/// Block `b`'s entry lies in RAM with base `base` and `len` bytes, inside its page frame.
pub open spec fn block_in_range(b: BlockModel, base: u64, len: nat) -> bool {
    &&& b.page_frame * 4096 <= b.phys_start < (b.page_frame + 1) * 4096
    &&& base <= b.phys_start && b.phys_start - base + 4 <= len
}

/// Every live block of cache `c` is what RAM `ram` holds now.
pub open spec fn cache_matches_ram(c: BlockCache, ram: RamView) -> bool {
    forall|i: int| 0 <= i < c.slots().len() && live(#[trigger] c.slots()[i], c.generation())
        ==> block_in_ram(c.slots()[i].unwrap(), ram)
}

/// Cache `c` holds no live block.
pub open spec fn cache_is_empty(c: BlockCache) -> bool {
    forall|i: int| 0 <= i < c.slots().len() ==> !live(#[trigger] c.slots()[i], c.generation())
}

/// RAM `r1` is RAM `r0` with at most the bytes of `[addr, addr + len)` changed.
pub open spec fn written_within(r0: RamView, r1: RamView, addr: int, len: int) -> bool {
    &&& r1.base == r0.base && r1.bytes.len() == r0.bytes.len()
    &&& forall|j: int| 0 <= j < r0.bytes.len() && #[trigger] r1.bytes[j] != r0.bytes[j]
        ==> addr <= r0.base + j < addr + len
}

/// What a step did to RAM: a retired store may have written its own bytes, and nothing else
/// changes RAM.
pub open spec fn step_ram(r0: RamView, r1: RamView, r: Result<Option<MemOp>, Trap>) -> bool {
    match r {
        Ok(Some(m)) => if m.is_store { 1 <= m.len <= 8 && written_within(r0, r1, m.addr as int, m.len as int) } else { r1 == r0 },
        _ => r1 == r0,
    }
}

/// The legacy step's outcome, fetch through execution: the contract of [`Hart::step_mem`].
pub open spec fn step_done<D: MmioDevice>(before: XRegs, after: XRegs, bus0: SystemBus<D>, bus1: SystemBus<D>, r: Result<Option<MemOp>, Trap>) -> bool {
    &&& (r is Err ==> after == before)
    &&& match bus0.load_value(before.pc, 4) {
        Err(BusFault::Access) => r == Err::<Option<MemOp>, Trap>(Trap { cause: Exception::InstrAccessFault, tval: before.pc })
            && bus0.load_post(&bus1, before.pc, 4),
        Err(BusFault::Misaligned) => r == Err::<Option<MemOp>, Trap>(Trap { cause: Exception::InstrAddrMisaligned, tval: before.pc })
            && bus0.load_post(&bus1, before.pc, 4),
        Ok(w) => fetched_step_mem(before, after, bus0, bus1, w, r),
    }
}

/// Executing an instruction changes RAM only through the bytes of the store it retires.
proof fn lemma_exec_ram<D: MmioDevice>(i: Instr, before: XRegs, after: XRegs, bus0: SystemBus<D>, bus1: SystemBus<D>, x: Result<(u8, u64, Option<MemOp>), Trap>)
    requires executed(i, before, after, bus0, bus1, x),
    ensures step_ram(bus0.ram_view(), bus1.ram_view(), mem_result(x)),
{
    let r0 = bus0.ram_view();
    let r1 = bus1.ram_view();
    match effect(i, before@, before.pc) {
        Effect::Store { addr, width, value } => {
            let v = crate::hart::truncate(value, width);
            assert(r1.bytes == crate::ram::ram_store(r0, addr, width, v));
            match crate::ram::ram_index(r0, addr, width) {
                Ok(off) => {
                    assert forall|j: int| 0 <= j < r0.bytes.len() && #[trigger] r1.bytes[j] != r0.bytes[j]
                        implies addr <= r0.base + j < addr + width by {
                        assert(off <= j < off + width);
                    }
                }
                Err(_) => {
                    assert(r1.bytes == r0.bytes);
                    assert(r1 =~= r0);
                }
            }
        }
        _ => {}
    }
}

/// The step contract of the hart: a fetch fault traps with the PC, an illegal word traps with
/// itself, and otherwise the decoded instruction executes; a trapping step leaves the registers
/// as they were.
pub open spec fn legacy_step<D: MmioDevice>(before: XRegs, after: XRegs, bus0: SystemBus<D>, bus1: SystemBus<D>, r: Result<(), Trap>) -> bool {
    &&& (r is Err ==> after == before)
    &&& match bus0.load_value(before.pc, 4) {
        Err(BusFault::Access) => r == Err::<(), Trap>(Trap { cause: Exception::InstrAccessFault, tval: before.pc })
            && bus0.load_post(&bus1, before.pc, 4),
        Err(BusFault::Misaligned) => r == Err::<(), Trap>(Trap { cause: Exception::InstrAddrMisaligned, tval: before.pc })
            && bus0.load_post(&bus1, before.pc, 4),
        Ok(w) => fetched_step(before, after, bus0, bus1, w, r),
    }
}

/// A step changes RAM only through the bytes of the store it retires.
proof fn lemma_step_ram<D: MmioDevice>(before: XRegs, after: XRegs, bus0: SystemBus<D>, bus1: SystemBus<D>, r: Result<Option<MemOp>, Trap>)
    requires step_done(before, after, bus0, bus1, r),
    ensures step_ram(bus0.ram_view(), bus1.ram_view(), r),
{
    let r0 = bus0.ram_view();
    let r1 = bus1.ram_view();
    match bus0.load_value(before.pc, 4) {
        Ok(w) => {
            let bus_mid = choose|bus_mid: SystemBus<D>| #[trigger] bus0.load_post(&bus_mid, before.pc, 4) && match crate::decode::decode_spec(w as u32) {
                Err(_) => r == Err::<Option<MemOp>, Trap>(Trap { cause: Exception::IllegalInstruction, tval: w }) && bus1 == bus_mid && after == before,
                Ok(i) => exists|x: Result<(u8, u64, Option<MemOp>), Trap>|
                    #[trigger] executed(i, before, after, bus_mid, bus1, x) && r == mem_result(x),
            };
            assert(bus_mid.ram_view() == r0);
            if let Ok(i) = crate::decode::decode_spec(w as u32) {
                let x = choose|x: Result<(u8, u64, Option<MemOp>), Trap>| #[trigger] executed(i, before, after, bus_mid, bus1, x) && r == mem_result(x);
                lemma_exec_ram(i, before, after, bus_mid, bus1, x);
            }
        }
        _ => {}
    }
}

/// A word load reads the same in two RAM states that agree on its four bytes.
proof fn lemma_word_unchanged(r0: RamView, r1: RamView, a: int)
    requires
        r1.base == r0.base, r1.bytes.len() == r0.bytes.len(), 0 <= a <= u64::MAX,
        forall|j: int| 0 <= j < r0.bytes.len() && a <= r0.base + j < a + 4 ==> #[trigger] r1.bytes[j] == r0.bytes[j],
    ensures crate::ram::ram_load(r1, a as u64, 4) == crate::ram::ram_load(r0, a as u64, 4),
{
    if let Ok(off) = crate::ram::ram_index(r0, a as u64, 4) {
        assert(r1.bytes[off] == r0.bytes[off]);
        assert(r1.bytes[off + 1] == r0.bytes[off + 1]);
        assert(r1.bytes[off + 2] == r0.bytes[off + 2]);
        assert(r1.bytes[off + 3] == r0.bytes[off + 3]);
    }
}

/// A block outside the page frames `first` and `last` survives a write confined to
/// `[addr, addr + len)` when those frames hold every written byte.
proof fn lemma_block_survives(b: BlockModel, r0: RamView, r1: RamView, addr: int, len: int, first: int, last: int)
    requires
        block_in_ram(b, r0), written_within(r0, r1, addr, len),
        1 <= len <= 8, first == addr / 4096, last <= first + 1,
        forall|x: int| addr <= x < addr + len && x <= u64::MAX ==> first <= #[trigger] (x / 4096) <= last,
        b.page_frame != first, b.page_frame != last,
    ensures block_in_ram(b, r1),
{
    assert forall|k: int| 0 <= k < b.ops.len() implies op_in_ram(#[trigger] b.ops[k], b.phys_start + 4 * k, b.page_frame, r1) by {
        let a = b.phys_start + 4 * k;
        assert(op_in_ram(b.ops[k], a, b.page_frame, r0));
        assert forall|j: int| 0 <= j < r0.bytes.len() && a <= r0.base + j < a + 4 implies #[trigger] r1.bytes[j] == r0.bytes[j] by {
            if r1.bytes[j] != r0.bytes[j] {
                let x = r0.base + j;
                assert(addr <= x < addr + len);
                assert(first <= x / 4096 <= last);
                assert(x / 4096 == b.page_frame);
            }
        }
        lemma_word_unchanged(r0, r1, a);
    }
}

/// `x` reduced to 64 bits.
pub open spec fn wrap64(x: int) -> u64 {
    (x % 0x1_0000_0000_0000_0000) as u64
}

/// How a [`Machine::run`] loop ended.
#[derive(Debug, Clone, Copy, PartialEq, Eq)]
pub enum RunOutcome {
    /// The guest requested exit via the HTIF `tohost` convention.
    Exited(u64),
    /// A trap escaped the run loop (there is no trap delivery).
    Trapped(Trap),
    /// The instruction budget was exhausted without exit or trap.
    MaxInstrs,
    /// The guest asked the platform to power off or reboot.
    Reset(ExitReason),
}

/// Why the guest reset the platform.
#[derive(Debug, Clone, Copy, PartialEq, Eq)]
pub enum ExitReason {
    /// Clean power off (finisher `0x5555`): the host should exit 0.
    PowerOff,
    /// Restart (finisher `0x7777`): the host boots a fresh machine.
    Reboot,
    /// Guest-signalled failure (finisher `0x3333`, code in the upper 16 bits).
    Fail(u16),
}

/// The identity a snapshot is bound to: the emulator build, the base disk image, and the
/// monotonic overlay-commit generation.
#[derive(Clone, Debug, PartialEq, Eq)]
pub struct SnapshotCoherence {
    pub core_hash: [u8; 32],
    pub base_image_hash: [u8; 32],
    pub generation: u64,
}

/// The memory footprint (bytes from `KERNEL_BASE`) of a RISC-V Linux `Image`: `image_size`
/// (little-endian at offset 16) when the header's `RSC\x05` magic sits at offset 0x38 and the size
/// exceeds the file, otherwise the file length.
pub open spec fn footprint_spec(bytes: Seq<u8>) -> u64 {
    let file_len = bytes.len() as u64;
    if bytes.len() >= 0x3c && bytes[0x38] == 0x52 && bytes[0x39] == 0x53 && bytes[0x3a] == 0x43 && bytes[0x3b] == 0x05 {
        let image_size = le_value(bytes, 16, 8);
        if image_size > file_len { image_size } else { file_len }
    } else {
        file_len
    }
}

/// The memory footprint (bytes from `KERNEL_BASE`) of a RISC-V Linux `Image`. Returns
/// `image_size` from the Image header when the header is valid and larger than the file;
/// otherwise the raw file length, a safe lower bound.
pub fn kernel_image_footprint(bytes: &[u8]) -> (r: u64)
    ensures r == footprint_spec(bytes@),
{
    let n = bytes.len();
    proof { crate::ram::lemma_usize_fits_u64(n as nat); }
    let file_len = n as u64;
    if n >= 0x3c && bytes[0x38] == 0x52 && bytes[0x39] == 0x53 && bytes[0x3a] == 0x43 && bytes[0x3b] == 0x05 {
        let image_size = (bytes[16] as u64) | ((bytes[17] as u64) << 8u64) | ((bytes[18] as u64) << 16u64)
            | ((bytes[19] as u64) << 24u64) | ((bytes[20] as u64) << 32u64) | ((bytes[21] as u64) << 40u64)
            | ((bytes[22] as u64) << 48u64) | ((bytes[23] as u64) << 56u64);
        if image_size > file_len {
            return image_size;
        }
    }
    file_len
}

/// `w` as eight lowercase hex digits, most significant first, zero-padded.
pub open spec fn hex8(w: u32) -> Seq<char> {
    Seq::new(8, |k: int| digit_char(((w >> ((28 - 4 * k) as u32)) % 16) as nat))
}

/// The signature text of the words `ws`: one `hex8` line each.
pub open spec fn signature_text(ws: Seq<u32>) -> Seq<char>
    decreases ws.len(),
{
    if ws.len() == 0 { Seq::empty() } else { signature_text(ws.drop_last()) + hex8(ws.last()) + seq!['\n'] }
}

/// The word a signature prints for a 32-bit read: the value read, or 0 when the read faults.
pub open spec fn signature_word(r: Result<u64, BusFault>) -> u32 {
    match r { Ok(v) => v as u32, Err(_) => 0 }
}

/// `ws` are the words read at `start`, `start + 4`, ... through the bus states `bs`: read `k`
/// happens in state `bs[k]` and leaves the bus in state `bs[k + 1]`.
pub open spec fn signature_reads<D: MmioDevice>(bs: Seq<SystemBus<D>>, ws: Seq<u32>, start: u64) -> bool {
    &&& bs.len() == ws.len() + 1
    &&& forall|k: int| 0 <= k < ws.len() ==> #[trigger] ws[k] == signature_word(bs[k].load_value((start + 4 * k) as u64, 4))
        && bs[k].load_post(&bs[k + 1], (start + 4 * k) as u64, 4)
}

/// The number of words a signature of `[begin, end)` dumps: from `begin` rounded down to a word
/// boundary, one per four bytes while below `end`.
pub open spec fn signature_words(begin: u64, end: u64) -> nat {
    let start = begin - begin % 4;
    if end <= start { 0 } else { ((end - start + 3) / 4) as nat }
}

/// The message refusing a granularity other than 4.
pub open spec fn granularity_message(g: u32) -> Seq<char> {
    "unsupported --signature-granularity "@ + digits(g as nat, 10) + " (only 4)"@
}

fn push_hex8(s: &mut String, w: u32)
    ensures final(s)@ == old(s)@ + hex8(w),
{
    let mut k: u32 = 0;
    while k < 8
        invariant k <= 8, s@ == old(s)@ + hex8(w).subrange(0, k as int),
        decreases 8 - k,
    {
        let d = (w >> (28 - 4 * k)) % 16;
        s.append(digit_str(d as u64));
        assert(hex8(w).subrange(0, k + 1) =~= hex8(w).subrange(0, k as int).push(digit_char(d as nat)));
        k += 1;
    }
    assert(hex8(w).subrange(0, 8) =~= hex8(w));
}

/// One machine: a hart, its bus with devices of type `D`, and the host-facing counters.
pub struct Machine<D> {
    hart: Hart,
    bus: SystemBus<D>,
    htif: Option<Htif>,
    last_tohost: u64,
    htif_commands: u64,
    irqstats: IrqStats,
    prof: ProfStats,
    profiling: bool,
    prof_countdown: u32,
    prof_lcg: u32,
    coherence: SnapshotCoherence,
    block_cache: BlockCache,
    block_cache_enabled: bool,
    /// The block being replayed: its key, the index of the next op, and the PC that op is at.
    block_cursor: Option<(u64, usize, u64)>,
    discovery: BlockDiscovery,
    interrupt_batching: bool,
}

impl<D: MmioDevice> Machine<D> {
    pub closed spec fn spec_hart(&self) -> Hart { self.hart }
    pub closed spec fn spec_bus(&self) -> SystemBus<D> { self.bus }
    pub closed spec fn spec_htif(&self) -> Option<Htif> { self.htif }
    pub closed spec fn spec_last_tohost(&self) -> u64 { self.last_tohost }
    pub closed spec fn spec_htif_commands(&self) -> u64 { self.htif_commands }
    pub closed spec fn spec_irqstats(&self) -> IrqStats { self.irqstats }
    pub closed spec fn spec_prof(&self) -> ProfStats { self.prof }
    pub closed spec fn spec_profiling(&self) -> bool { self.profiling }
    pub closed spec fn spec_coherence(&self) -> SnapshotCoherence { self.coherence }
    pub closed spec fn spec_cache(&self) -> BlockCache { self.block_cache }
    pub closed spec fn spec_cache_enabled(&self) -> bool { self.block_cache_enabled }
    pub closed spec fn spec_cursor(&self) -> Option<(u64, usize, u64)> { self.block_cursor }
    pub closed spec fn spec_discovery(&self) -> DiscoveryModel { self.discovery@ }
    pub closed spec fn spec_batching(&self) -> bool { self.interrupt_batching }

    /// The block cache agrees with memory: every live block is what RAM holds now.
    pub open spec fn cache_sound(&self) -> bool {
        cache_matches_ram(self.spec_cache(), self.spec_bus().ram_view())
    }

    /// Whether the block cache holds no live block.
    pub open spec fn cache_empty(&self) -> bool {
        cache_is_empty(self.spec_cache())
    }

    /// Retired instructions counted so far.
    pub open spec fn spec_retired(&self) -> u64 {
        self.spec_irqstats().spec_retired()
    }

    /// The counters stay within what the retire count allows: every sample and every HTIF
    /// command belongs to a retired instruction.
    pub closed spec fn wf(&self) -> bool {
        &&& self.prof.wf()
        &&& self.prof.spec_hist().spec_samples() == self.prof.spec_sample_count()
        &&& self.prof.spec_hist().spec_collisions() <= self.prof.spec_hist().spec_samples()
        &&& self.prof.spec_sample_count() <= self.irqstats.spec_retired()
        &&& self.htif_commands <= self.irqstats.spec_retired()
        &&& self.block_cache.wf()
        &&& self.block_cache.coherent()
        &&& bounded(self.discovery@)
        &&& (self.block_cursor matches Some((key, idx, next)) ==> next == wrap64(key + 4 * idx))
        &&& (self.block_cache_enabled ==> cache_is_empty(self.block_cache) || cache_matches_ram(self.block_cache, self.bus.ram_view()))
    }

    /// Every live cached block lies in RAM: its entry is a RAM address inside its page frame.
    proof fn lemma_live_in_range(&self)
        requires self.block_cache_enabled ==> cache_is_empty(self.block_cache) || cache_matches_ram(self.block_cache, self.bus.ram_view()),
        ensures
            self.block_cache_enabled ==> forall|i: int| 0 <= i < self.block_cache.slots().len()
                && live(#[trigger] self.block_cache.slots()[i], self.block_cache.generation())
                ==> block_in_range(self.block_cache.slots()[i].unwrap(), self.bus.ram_view().base, self.bus.ram_view().bytes.len()),
    {
        if self.block_cache_enabled && !cache_is_empty(self.block_cache) {
            assert forall|i: int| 0 <= i < self.block_cache.slots().len()
                && live(#[trigger] self.block_cache.slots()[i], self.block_cache.generation())
                implies block_in_range(self.block_cache.slots()[i].unwrap(), self.bus.ram_view().base, self.bus.ram_view().bytes.len()) by {
                let b = self.block_cache.slots()[i].unwrap();
                assert(block_in_ram(b, self.bus.ram_view()));
                assert(op_in_ram(b.ops[0], b.phys_start + 4 * 0, b.page_frame, self.bus.ram_view()));
            }
        }
    }

    /// With the block cache on, drop every cached block that lies in RAM, as the host may have
    /// rewritten any of it; when a block was dropped the replay cursor is reset and discovery
    /// invalidated.
    fn invalidate_ram(&mut self)
        requires
            old(self).block_cache.wf(), old(self).block_cache.coherent(), bounded(old(self).discovery@),
            old(self).block_cache_enabled ==> forall|i: int| 0 <= i < old(self).block_cache.slots().len()
                && live(#[trigger] old(self).block_cache.slots()[i], old(self).block_cache.generation())
                ==> block_in_range(old(self).block_cache.slots()[i].unwrap(), old(self).bus.ram_view().base, old(self).bus.ram_view().bytes.len()),
            old(self).block_cursor matches Some((key, idx, next)) ==> next == wrap64(key + 4 * idx),
        ensures
            final(self).block_cache.wf(), final(self).block_cache.coherent(), bounded(final(self).discovery@),
            final(self).block_cache_enabled ==> cache_is_empty(final(self).block_cache),
            final(self).block_cursor matches Some((key, idx, next)) ==> next == wrap64(key + 4 * idx),
            final(self).hart == old(self).hart, final(self).bus == old(self).bus,
            final(self).htif == old(self).htif, final(self).last_tohost == old(self).last_tohost,
            final(self).htif_commands == old(self).htif_commands, final(self).irqstats == old(self).irqstats,
            final(self).prof == old(self).prof, final(self).profiling == old(self).profiling,
            final(self).prof_countdown == old(self).prof_countdown, final(self).prof_lcg == old(self).prof_lcg,
            final(self).coherence == old(self).coherence,
            final(self).block_cache_enabled == old(self).block_cache_enabled,
            final(self).interrupt_batching == old(self).interrupt_batching,
    {
        if !self.block_cache_enabled {
            return;
        }
        let base = self.bus.ram().base();
        let len = self.bus.ram().len();
        if len == 0 {
            assert forall|i: int| 0 <= i < self.block_cache.slots().len()
                implies !live(#[trigger] self.block_cache.slots()[i], self.block_cache.generation()) by {
                if live(self.block_cache.slots()[i], self.block_cache.generation()) {
                    assert(block_in_range(self.block_cache.slots()[i].unwrap(), base, 0));
                }
            }
            assert(cache_is_empty(self.block_cache));
            return;
        }
        proof { crate::ram::lemma_usize_fits_u64(len as nat); }
        let span = (len - 1) as u64;
        let top = if span <= u64::MAX - base { base + span } else { u64::MAX };
        let first = base / 4096;
        let last = top / 4096;
        let ghost slots0 = self.block_cache.slots();
        let ghost g = self.block_cache.generation();
        let mut flushed = false;
        let mut f = first;
        while f <= last
            invariant
                first <= f <= last + 1, last < u64::MAX,
                self.block_cache.wf(), self.block_cache.coherent(),
                self.block_cache.generation() == g,
                self.block_cache.slots().len() == slots0.len(),
                forall|j: int| 0 <= j < slots0.len() ==> #[trigger] self.block_cache.slots()[j] == slots0[j] || self.block_cache.slots()[j] is None,
                forall|j: int| 0 <= j < slots0.len() && live(#[trigger] self.block_cache.slots()[j], g)
                    ==> !(first <= self.block_cache.slots()[j].unwrap().page_frame < f),
                self.hart == old(self).hart, self.bus == old(self).bus,
                self.htif == old(self).htif, self.last_tohost == old(self).last_tohost,
                self.htif_commands == old(self).htif_commands, self.irqstats == old(self).irqstats,
                self.prof == old(self).prof, self.profiling == old(self).profiling,
                self.prof_countdown == old(self).prof_countdown, self.prof_lcg == old(self).prof_lcg,
                self.coherence == old(self).coherence, self.block_cache_enabled,
                self.interrupt_batching == old(self).interrupt_batching,
                self.block_cursor == old(self).block_cursor, self.discovery == old(self).discovery,
            decreases last + 1 - f,
        {
            let ghost before = self.block_cache.slots();
            if self.block_cache.flush_page(f) {
                flushed = true;
            }
            assert forall|j: int| 0 <= j < slots0.len() implies #[trigger] self.block_cache.slots()[j] == before[j] || self.block_cache.slots()[j] is None by {
            }
            f = f + 1;
        }
        proof {
            assert forall|i: int| 0 <= i < self.block_cache.slots().len()
                implies !live(#[trigger] self.block_cache.slots()[i], self.block_cache.generation()) by {
                if live(self.block_cache.slots()[i], g) {
                    assert(self.block_cache.slots()[i] == slots0[i]);
                    let b = slots0[i].unwrap();
                    assert(block_in_range(b, base, len as nat));
                    assert(first <= b.page_frame <= last) by {
                        assert(b.page_frame == b.phys_start / 4096);
                    }
                }
            }
        }
        if flushed {
            self.block_cursor = None;
            self.discovery.on_invalidate();
        }
    }

    /// After a retired step, drop the cached blocks its store may have overwritten: those of the
    /// page frames the stored bytes fall in. When a block was dropped, the replay cursor is reset
    /// and discovery invalidated, so a pending request for the old bytes goes stale.
    fn drain_code_writes(&mut self, mem: Option<MemOp>, Ghost(ram0): Ghost<RamView>)
        requires
            old(self).block_cache.wf(), old(self).block_cache.coherent(), bounded(old(self).discovery@),
            old(self).block_cursor matches Some((key, idx, next)) ==> next == wrap64(key + 4 * idx),
            old(self).block_cache_enabled ==> cache_is_empty(old(self).block_cache) || cache_matches_ram(old(self).block_cache, ram0),
            step_ram(ram0, old(self).bus.ram_view(), Ok(mem)),
        ensures
            final(self).block_cache.wf(), final(self).block_cache.coherent(), bounded(final(self).discovery@),
            final(self).block_cursor matches Some((key, idx, next)) ==> next == wrap64(key + 4 * idx),
            final(self).block_cache_enabled ==> cache_is_empty(final(self).block_cache)
                || cache_matches_ram(final(self).block_cache, final(self).bus.ram_view()),
            final(self).hart == old(self).hart, final(self).bus == old(self).bus,
            final(self).htif == old(self).htif, final(self).last_tohost == old(self).last_tohost,
            final(self).htif_commands == old(self).htif_commands, final(self).irqstats == old(self).irqstats,
            final(self).prof == old(self).prof, final(self).profiling == old(self).profiling,
            final(self).prof_countdown == old(self).prof_countdown, final(self).prof_lcg == old(self).prof_lcg,
            final(self).coherence == old(self).coherence,
            final(self).block_cache_enabled == old(self).block_cache_enabled,
            final(self).interrupt_batching == old(self).interrupt_batching,
    {
        if !self.block_cache_enabled {
            return;
        }
        let m = match mem {
            Some(m) => m,
            None => return,
        };
        if !m.is_store {
            return;
        }
        let ghost r1 = self.bus.ram_view();
        let ghost slots0 = self.block_cache.slots();
        let ghost g = self.block_cache.generation();
        let span = (m.len - 1) as u64;
        let last_addr = if m.addr <= u64::MAX - span { m.addr + span } else { u64::MAX };
        let first = m.addr / 4096;
        let last = last_addr / 4096;
        let a = self.block_cache.flush_page(first);
        let b = if last != first { self.block_cache.flush_page(last) } else { false };
        proof {
            assert forall|j: int| 0 <= j < slots0.len() implies #[trigger] self.block_cache.slots()[j] == slots0[j] || self.block_cache.slots()[j] is None by {
            }
            assert(last_addr <= m.addr + 7);
            assert(last <= first + 1);
            assert forall|x: int| m.addr <= x < m.addr + m.len && x <= u64::MAX implies first <= #[trigger] (x / 4096) <= last by {
                assert(x <= last_addr);
            }
            if cache_is_empty(old(self).block_cache) {
                assert forall|i: int| 0 <= i < self.block_cache.slots().len()
                    implies !live(#[trigger] self.block_cache.slots()[i], self.block_cache.generation()) by {
                    assert(self.block_cache.slots()[i] == slots0[i] || self.block_cache.slots()[i] is None);
                }
            } else {
                assert forall|i: int| 0 <= i < self.block_cache.slots().len() && live(#[trigger] self.block_cache.slots()[i], self.block_cache.generation())
                    implies block_in_ram(self.block_cache.slots()[i].unwrap(), r1) by {
                    assert(self.block_cache.slots()[i] == slots0[i]);
                    let blk = slots0[i].unwrap();
                    lemma_block_survives(blk, ram0, r1, m.addr as int, m.len as int, first as int, last as int);
                }
            }
        }
        if a || b {
            self.block_cursor = None;
            self.discovery.on_invalidate();
        }
    }

    /// The 4-byte instruction RAM holds at `a`, when `a` is an aligned RAM word that decodes.
    fn ram_op(&self, a: u64) -> (r: Option<MicroOp>)
        ensures
            r matches Some(op) ==> op_in_ram(op, a as int, a / 4096, self.bus.ram_view()),
            r is Some <==> ram_word_decodes(self.bus.ram_view(), a),
    {
        let w = match self.bus.ram().peek32(a) {
            Ok(w) => w,
            Err(_) => return None,
        };
        let instr = match decode(w) {
            Ok(i) => i,
            Err(_) => return None,
        };
        proof {
            assert(a % 4 == 0);
            assert(a % 4096 <= 4092) by (nonlinear_arith) requires a % 4 == 0;
            assert(a as int == (a / 4096) * 4096 + a % 4096) by (nonlinear_arith);
        }
        Some(MicroOp { instr, len: 4, raw: w })
    }

    /// The step with no block cache: fetch, decode and execute through the hart, then drop the
    /// cached blocks its store overwrote.
    fn step_legacy<T: TraceSink>(&mut self, sink: &mut T) -> (r: Result<(), Trap>)
        requires old(self).wf(),
        ensures
            final(self).wf(),
            legacy_step(old(self).hart.regs, final(self).hart.regs, old(self).bus, final(self).bus, r),
            final(self).htif == old(self).htif, final(self).last_tohost == old(self).last_tohost,
            final(self).htif_commands == old(self).htif_commands, final(self).irqstats == old(self).irqstats,
            final(self).prof == old(self).prof, final(self).profiling == old(self).profiling,
            final(self).prof_countdown == old(self).prof_countdown, final(self).prof_lcg == old(self).prof_lcg,
            final(self).coherence == old(self).coherence,
            final(self).block_cache_enabled == old(self).block_cache_enabled,
            final(self).interrupt_batching == old(self).interrupt_batching,
    {
        let ghost regs0 = self.hart.regs;
        let ghost bus0 = self.bus;
        let r = self.hart.step_mem(&mut self.bus, sink);
        proof { lemma_step_ram(regs0, self.hart.regs, bus0, self.bus, r); }
        match r {
            Ok(mem) => {
                self.drain_code_writes(mem, Ghost(bus0.ram_view()));
                Ok(())
            }
            Err(t) => Err(t),
        }
    }

    /// The micro-op at `pc` when the block cache can serve it. A live replay cursor expecting
    /// `pc` continues its block with no fetch. Otherwise, when `pc` is an aligned RAM word that
    /// decodes, the block from `pc` is walked (to the first terminator, the page edge, a word that
    /// is not RAM or does not decode, or [`MAX_BLOCK_OPS`] ops), counted as a block entry by
    /// discovery, cached under `pc`, and its first op returned; else `None`, and the step runs
    /// uncached.
    fn next_micro_op(&mut self, pc: u64) -> (r: Option<MicroOp>)
        requires old(self).wf(), old(self).block_cache_enabled,
        ensures
            final(self).wf(),
            r matches Some(op) ==> op_in_ram(op, pc as int, pc / 4096, final(self).bus.ram_view()),
            r is Some <==> ram_word_decodes(old(self).bus.ram_view(), pc),
            final(self).hart == old(self).hart, final(self).bus == old(self).bus,
            final(self).htif == old(self).htif, final(self).last_tohost == old(self).last_tohost,
            final(self).htif_commands == old(self).htif_commands, final(self).irqstats == old(self).irqstats,
            final(self).prof == old(self).prof, final(self).profiling == old(self).profiling,
            final(self).prof_countdown == old(self).prof_countdown, final(self).prof_lcg == old(self).prof_lcg,
            final(self).coherence == old(self).coherence,
            final(self).block_cache_enabled == old(self).block_cache_enabled,
            final(self).interrupt_batching == old(self).interrupt_batching,
    {
        if let Some((key, idx, next_va)) = self.block_cursor {
            if next_va == pc {
                let hit: Option<MicroOp> = match self.block_cache.get(key) {
                    Some(b) => {
                        if idx < b.ops.len() {
                            proof {
                                self.block_cache.lemma_lookup_live(key);
                                let j = choose|j: int| 0 <= j < self.block_cache.slots().len() && self.block_cache.slots()[j] == Some(b@);
                                assert(live(self.block_cache.slots()[j], self.block_cache.generation()));
                                assert(!cache_is_empty(self.block_cache));
                                assert(block_in_ram(b@, self.bus.ram_view()));
                                crate::dispatch::lemma_block_view(b);
                            }
                            Some(b.ops[idx])
                        } else {
                            None
                        }
                    }
                    None => None,
                };
                if let Some(op) = hit {
                    proof {
                        let b = self.block_cache.lookup(key).unwrap();
                        assert(op_in_ram(b.ops[idx as int], b.phys_start + 4 * idx, b.page_frame, self.bus.ram_view()));
                        assert(b.phys_start + 4 * idx == pc);
                        assert(op.raw as u64 as u32 == op.raw);
                    }
                    self.block_cursor = Some((key, idx + 1, pc.wrapping_add(4)));
                    return Some(op);
                }
            }
        }
        self.block_cursor = None;
        let first = match self.ram_op(pc) {
            Some(op) => op,
            None => return None,
        };
        let ghost frame = pc / 4096;
        let mut ops: Vec<MicroOp> = Vec::new();
        ops.push(first);
        let mut total_len: u64 = 4;
        if !is_terminator(&first.instr) && pc <= u64::MAX - 4 {
            let mut va = pc + 4;
            while ops.len() < MAX_BLOCK_OPS
                invariant_except_break
                    va == pc + 4 * ops@.len(),
                invariant
                    1 <= ops@.len() <= MAX_BLOCK_OPS, total_len == 4 * ops@.len(), frame == pc / 4096,
                    forall|k: int| 0 <= k < ops@.len() ==> op_in_ram(#[trigger] ops@[k], pc + 4 * k, frame, self.bus.ram_view()),
                decreases MAX_BLOCK_OPS - ops@.len(),
            {
                if va / 4096 != pc / 4096 {
                    break;
                }
                let op = match self.ram_op(va) {
                    Some(op) => op,
                    None => break,
                };
                total_len = total_len + 4;
                let is_term = is_terminator(&op.instr);
                ops.push(op);
                if is_term || va > u64::MAX - 4 {
                    break;
                }
                va = va + 4;
            }
        }
        proof {
            assert forall|k: int| 0 <= k < ops@.len() implies #[trigger] ops@[k].len <= 4 by {
                assert(op_in_ram(ops@[k], pc + 4 * k, frame, self.bus.ram_view()));
            }
        }
        self.discovery.on_block_entry(pc, ops.as_slice());
        let ghost block_ops = ops@;
        let block = DecodedBlock::new(pc, ops, total_len);
        proof {
            vstd::bits::lemma_u64_shr_is_div(pc, 12);
            vstd::arithmetic::power2::lemma2_to64();
            assert(block@.page_frame == frame);
            assert(block_in_ram(block@, self.bus.ram_view()));
        }
        let ghost old_cache = self.block_cache;
        let ghost model = block@;
        self.block_cache.insert(block);
        proof {
            let g = self.block_cache.generation();
            let t = crate::dispatch::cache::insert_slot(old_cache.slots(), old_cache.mask(), g, pc);
            crate::dispatch::cache::lemma_insert_slot_in_range(old_cache.slots(), old_cache.mask(), g, pc);
            assert(self.block_cache.slots() == old_cache.slots().update(t as int, Some(BlockCache::stamped(model, g))));
            assert forall|i: int| 0 <= i < self.block_cache.slots().len() && live(#[trigger] self.block_cache.slots()[i], g)
                implies block_in_ram(self.block_cache.slots()[i].unwrap(), self.bus.ram_view()) by {
                if i != t {
                    assert(self.block_cache.slots()[i] == old_cache.slots()[i]);
                    assert(!cache_is_empty(old_cache));
                }
            }
        }
        self.block_cursor = Some((pc, 1, pc.wrapping_add(4)));
        Some(first)
    }

    /// Step one instruction through the block cache: the same contract as the uncached step.
    /// A cached or freshly walked micro-op is executed without a fetch; when `pc` cannot be served
    /// the step runs uncached. Either way the blocks a store overwrote are dropped.
    pub fn step_cached<T: TraceSink>(&mut self, sink: &mut T) -> (r: Result<(), Trap>)
        requires old(self).wf(), old(self).spec_cache_enabled(),
        ensures
            final(self).wf(),
            legacy_step(old(self).spec_hart().regs, final(self).spec_hart().regs, old(self).spec_bus(), final(self).spec_bus(), r),
            final(self).spec_htif() == old(self).spec_htif(), final(self).spec_last_tohost() == old(self).spec_last_tohost(),
            final(self).spec_htif_commands() == old(self).spec_htif_commands(),
            final(self).spec_irqstats() == old(self).spec_irqstats(),
            final(self).spec_prof() == old(self).spec_prof(), final(self).spec_profiling() == old(self).spec_profiling(),
            final(self).spec_coherence() == old(self).spec_coherence(),
            final(self).spec_cache_enabled() == old(self).spec_cache_enabled(),
            final(self).spec_batching() == old(self).spec_batching(),
    {
        let pc = self.hart.regs.pc;
        let op = match self.next_micro_op(pc) {
            Some(op) => op,
            None => return self.step_legacy(sink),
        };
        let ghost regs0 = self.hart.regs;
        let ghost bus0 = self.bus;
        let x = self.hart.execute(&mut self.bus, op.instr);
        proof {
            lemma_exec_ram(op.instr, regs0, self.hart.regs, bus0, self.bus, x);
            assert(bus0.load_value(pc, 4) == Ok::<u64, BusFault>(op.raw as u64));
            assert(bus0.load_post(&bus0, pc, 4));
            assert((op.raw as u64) as u32 == op.raw);
            assert(executed(op.instr, regs0, self.hart.regs, bus0, self.bus, x));
        }
        match x {
            Ok((rd, value, mem)) => {
                sink.retire(&TraceRecord { pc, insn: op.raw, rd: if rd != 0 { Some((rd, value)) } else { None }, mem });
                self.drain_code_writes(mem, Ghost(bus0.ram_view()));
                Ok(())
            }
            Err(t) => Err(t),
        }
    }

    /// Turn the predecoded block cache on or off. Every transition flushes the cache, drops the
    /// replay cursor and resets discovery, so the two paths never share a stale block.
    pub fn set_block_cache(&mut self, on: bool)
        ensures
            final(self).spec_cache_enabled() == on,
            final(self).spec_cache().generation() == vstd::wrapping::u64_specs::wrapping_add(old(self).spec_cache().generation(), 1),
            final(self).spec_cache().slots() == old(self).spec_cache().slots(),
            final(self).spec_cursor() is None,
            final(self).spec_discovery().generation == vstd::wrapping::u64_specs::wrapping_add(old(self).spec_discovery().generation, 1),
            final(self).spec_discovery().queue.len() == 0, final(self).spec_discovery().counts.len() == 0,
            final(self).spec_hart() == old(self).spec_hart(), final(self).spec_bus() == old(self).spec_bus(),
            final(self).spec_irqstats() == old(self).spec_irqstats(), final(self).spec_htif() == old(self).spec_htif(),
            final(self).spec_coherence() == old(self).spec_coherence(),
            old(self).wf() && old(self).spec_cache().generation() < u64::MAX ==> final(self).wf(),
    {
        self.block_cache_enabled = on;
        self.block_cache.flush();
        self.block_cursor = None;
        self.discovery.reset();
        proof {
            if old(self).wf() && old(self).spec_cache().generation() < u64::MAX {
                assert forall|i: int| 0 <= i < self.block_cache.slots().len()
                    implies !live(#[trigger] self.block_cache.slots()[i], self.block_cache.generation()) by {
                    assert(old(self).block_cache.slots()[i] == self.block_cache.slots()[i]);
                }
                assert(cache_is_empty(self.block_cache));
            }
        }
    }

    /// Whether the predecoded block cache is on.
    pub fn block_cache_enabled(&self) -> (r: bool)
        ensures r == self.spec_cache_enabled(),
    {
        self.block_cache_enabled
    }

    /// Turn interrupt batching on or off (effective only with the block cache on). This machine
    /// has no interrupt sources, so batching changes no step; the replay cursor is dropped to keep
    /// block boundaries consistent.
    pub fn set_interrupt_batching(&mut self, on: bool)
        ensures
            final(self).spec_batching() == on, final(self).spec_cursor() is None,
            final(self).spec_cache() == old(self).spec_cache(),
            final(self).spec_cache_enabled() == old(self).spec_cache_enabled(),
            final(self).spec_hart() == old(self).spec_hart(), final(self).spec_bus() == old(self).spec_bus(),
            old(self).wf() ==> final(self).wf(),
    {
        self.interrupt_batching = on;
        self.block_cursor = None;
    }

    /// Whether interrupt batching is on and effective: it needs the block cache.
    pub fn interrupt_batching(&self) -> (r: bool)
        ensures r == (self.spec_batching() && self.spec_cache_enabled()),
    {
        self.interrupt_batching && self.block_cache_enabled
    }

    /// Replace the block cache with an empty one of `capacity` slots (rounded up to a power of
    /// two), dropping the replay cursor and resetting discovery.
    pub fn set_block_cache_capacity(&mut self, capacity: usize)
        requires old(self).wf(), capacity <= usize::MAX / 2 + 1,
        ensures
            final(self).wf(),
            crate::dispatch::cache::rounded_capacity(capacity, final(self).spec_cache().slots().len()),
            cache_is_empty(final(self).spec_cache()),
            final(self).spec_cache().generation() == 1,
            final(self).spec_cursor() is None,
            final(self).spec_cache_enabled() == old(self).spec_cache_enabled(),
            final(self).spec_hart() == old(self).spec_hart(), final(self).spec_bus() == old(self).spec_bus(),
            final(self).spec_irqstats() == old(self).spec_irqstats(), final(self).spec_htif() == old(self).spec_htif(),
    {
        self.block_cache = BlockCache::with_capacity(capacity);
        self.block_cursor = None;
        self.discovery.reset();
        assert(cache_is_empty(self.block_cache));
    }

    /// Set the hotness promotion threshold (at least 1).
    pub fn set_hotness_threshold(&mut self, threshold: u32)
        requires old(self).wf(),
        ensures
            final(self).wf(),
            final(self).spec_discovery().threshold == if threshold == 0 { 1 } else { threshold },
            final(self).spec_cache() == old(self).spec_cache(),
            final(self).spec_hart() == old(self).spec_hart(), final(self).spec_bus() == old(self).spec_bus(),
    {
        self.discovery.set_threshold(threshold);
    }

    /// The block-discovery counters, with the block cache's whole-cache flushes and page-discarded
    /// blocks folded in.
    pub fn discovery_stats(&self) -> (r: DiscoveryStats)
        ensures
            r == (DiscoveryStats {
                queue_depth: self.spec_discovery().queue.len() as usize,
                candidates: self.spec_discovery().counts.len() as usize,
                cache_flushes: self.spec_cache().flush_count(),
                blocks_discarded: self.spec_cache().discarded_count(),
                ..self.spec_discovery().stats
            }),
    {
        let mut s = self.discovery.stats();
        let (cache_flushes, blocks_discarded) = self.block_cache.invalidation_stats();
        s.cache_flushes = cache_flushes;
        s.blocks_discarded = blocks_discarded;
        s
    }

    /// Drain the pending translation requests, oldest first.
    pub fn take_translation_requests(&mut self) -> (r: Vec<TranslationRequest>)
        requires old(self).wf(),
        ensures
            final(self).wf(),
            crate::dispatch::discovery::request_models(r@) == old(self).spec_discovery().queue,
            final(self).spec_discovery() == (DiscoveryModel { queue: Seq::empty(), ..old(self).spec_discovery() }),
            final(self).spec_hart() == old(self).spec_hart(), final(self).spec_bus() == old(self).spec_bus(),
    {
        self.discovery.take_requests()
    }

    /// Validate a translation request against live guest bytes: it may be installed only if its
    /// generation is current and its bytes still match.
    pub fn discovery_install_check(&mut self, req: &TranslationRequest, live_bytes: &[u8]) -> (r: bool)
        requires old(self).wf(),
        ensures
            final(self).wf(),
            r == (req.generation == old(self).spec_discovery().generation && req.code_bytes@ == live_bytes@),
            final(self).spec_hart() == old(self).spec_hart(), final(self).spec_bus() == old(self).spec_bus(),
    {
        self.discovery.install_check(req, live_bytes)
    }

    /// A machine with `ram_bytes` of zeroed guest RAM at `DRAM_BASE`, the hart at reset, no HTIF
    /// watch, and every counter zero; `Err(OutOfMemory)` when the allocator refuses the RAM.
    pub fn try_new(ram_bytes: usize) -> (r: Result<Self, OutOfMemory>)
        ensures
            r matches Ok(m) ==> {
                &&& m.wf()
                &&& m.spec_bus().ram_view().base == virt::DRAM_BASE
                &&& m.spec_bus().ram_view().bytes == Seq::new(ram_bytes as nat, |i: int| 0u8)
                &&& m.spec_bus().windows_view().len() == 0
                &&& m.spec_hart().regs.pc == virt::DRAM_BASE
                &&& forall|i: int| 0 <= i < 32 ==> m.spec_hart().regs@[i] == 0
                &&& m.spec_htif() is None && m.spec_last_tohost() == 0 && m.spec_htif_commands() == 0
                &&& m.spec_retired() == 0
                &&& !m.spec_profiling()
                &&& m.spec_coherence().core_hash@ == Seq::new(32, |i: int| 0u8)
                &&& m.spec_coherence().base_image_hash@ == Seq::new(32, |i: int| 0u8)
                &&& m.spec_coherence().generation == 0
                &&& !m.spec_cache_enabled() && !m.spec_batching()
            },
    {
        let ram = match Ram::new(ram_bytes) {
            Ok(r) => r,
            Err(e) => return Err(e),
        };
        let m = Machine {
            hart: Hart::new(),
            bus: SystemBus::new(ram),
            htif: None,
            last_tohost: 0,
            htif_commands: 0,
            irqstats: IrqStats::new(),
            prof: ProfStats::new(),
            profiling: false,
            prof_countdown: PROF_STRIDE_BASE,
            prof_lcg: 0x1234_5678,
            coherence: SnapshotCoherence { core_hash: [0u8; 32], base_image_hash: [0u8; 32], generation: 0 },
            block_cache: BlockCache::with_capacity(BLOCK_CACHE_SLOTS),
            block_cache_enabled: false,
            block_cursor: None,
            discovery: BlockDiscovery::new(),
            interrupt_batching: false,
        };
        Ok(m)
    }

    /// A machine with `ram_bytes` of zeroed guest RAM at `DRAM_BASE`, an empty hart (PC 0, every
    /// register 0) and no HTIF watch; the caller points the PC at its entry. If the allocator
    /// refuses that much RAM the machine gets none, so every RAM access faults; callers that must
    /// tell the two apart use [`Self::try_new`], which leaves the hart at its reset vector.
    pub fn new(ram_bytes: usize) -> (r: Self)
        ensures
            r.wf(), r.spec_retired() == 0, r.spec_htif() is None,
            r.spec_bus().ram_view().base == virt::DRAM_BASE,
            r.spec_bus().ram_view().bytes == Seq::new(ram_bytes as nat, |i: int| 0u8)
                || r.spec_bus().ram_view().bytes.len() == 0,
            r.spec_bus().windows_view().len() == 0,
            r.spec_hart().regs.pc == 0,
            forall|i: int| 0 <= i < 32 ==> r.spec_hart().regs@[i] == 0,
            r.spec_last_tohost() == 0, r.spec_htif_commands() == 0, !r.spec_profiling(),
            r.spec_coherence().generation == 0,
            !r.spec_cache_enabled() && !r.spec_batching(),
    {
        let mut m = match Self::try_new(ram_bytes) {
            Ok(m) => m,
            Err(_) => Machine {
                hart: Hart::new(),
                bus: SystemBus::new(Ram::empty()),
                htif: None,
                last_tohost: 0,
                htif_commands: 0,
                irqstats: IrqStats::new(),
                prof: ProfStats::new(),
                profiling: false,
                prof_countdown: PROF_STRIDE_BASE,
                prof_lcg: 0x1234_5678,
                coherence: SnapshotCoherence { core_hash: [0u8; 32], base_image_hash: [0u8; 32], generation: 0 },
                block_cache: BlockCache::with_capacity(BLOCK_CACHE_SLOTS),
                block_cache_enabled: false,
                block_cursor: None,
                discovery: BlockDiscovery::new(),
                interrupt_batching: false,
            },
        };
        let ghost v = m.hart.regs@;
        assert(forall|i: int| 0 <= i < 32 ==> v[i] == 0);
        m.hart.regs.pc = 0;
        assert(m.hart.regs@ == v);
        m
    }

    /// Size of guest RAM in bytes.
    pub fn ram_len(&self) -> (r: usize)
        ensures r == self.spec_bus().ram_view().bytes.len(),
    {
        self.bus.ram().len()
    }

    /// The hart, for inspection.
    pub fn hart(&self) -> (r: &Hart)
        ensures *r == self.spec_hart(),
    {
        &self.hart
    }

    /// The hart, for test rigs and hosts seeding registers.
    pub fn hart_mut(&mut self) -> (r: &mut Hart)
        ensures
            *r == old(self).spec_hart(),
            final(self).spec_hart() == *final(r),
            final(self).spec_bus() == old(self).spec_bus(),
            final(self).spec_irqstats() == old(self).spec_irqstats(),
            final(self).spec_prof() == old(self).spec_prof(),
            final(self).spec_htif() == old(self).spec_htif(),
            final(self).spec_htif_commands() == old(self).spec_htif_commands(),
            final(self).spec_coherence() == old(self).spec_coherence(),
            old(self).wf() ==> final(self).wf(),
    {
        &mut self.hart
    }

    /// The bus, for test rigs and hosts attaching devices or seeding memory. With the block cache
    /// on, every cached block is dropped first, since the host may rewrite code through it.
    pub fn bus_mut(&mut self) -> (r: &mut SystemBus<D>)
        requires old(self).wf(),
        ensures
            *r == old(self).spec_bus(),
            final(self).spec_bus() == *final(r),
            final(self).spec_hart() == old(self).spec_hart(),
            final(self).spec_irqstats() == old(self).spec_irqstats(),
            final(self).spec_prof() == old(self).spec_prof(),
            final(self).spec_htif() == old(self).spec_htif(),
            final(self).spec_htif_commands() == old(self).spec_htif_commands(),
            final(self).spec_coherence() == old(self).spec_coherence(),
            final(self).spec_cache_enabled() == old(self).spec_cache_enabled(),
            final(self).wf(),
    {
        proof { self.lemma_live_in_range(); }
        self.invalidate_ram();
        &mut self.bus
    }

    /// Load an ELF image: copy its segments into RAM, set the PC to `e_entry`, and arm the HTIF
    /// watch on `tohost` when the symbol is present (a missing `tohost` leaves HTIF unarmed).
    pub fn load_elf(&mut self, bytes: &[u8]) -> (r: Result<LoadedImage, ElfError>)
        requires old(self).wf(),
        ensures
            final(self).wf(),
            r matches Ok(img) ==> final(self).spec_hart().regs.pc == img.entry
                && (match img.tohost {
                    Some(a) => final(self).spec_htif() matches Some(h) && h.addr() == a,
                    None => final(self).spec_htif() is None,
                })
                && final(self).spec_hart().regs@ == old(self).spec_hart().regs@,
            r is Err ==> final(self).spec_hart() == old(self).spec_hart() && final(self).spec_htif() == old(self).spec_htif()
                && final(self).spec_bus().ram_view() == old(self).spec_bus().ram_view(),
            loader::elf_error(bytes@, old(self).spec_bus().ram_view()) matches Some(e) ==> r == Err::<LoadedImage, ElfError>(e),
            loader::elf_error(bytes@, old(self).spec_bus().ram_view()) is None ==> r is Ok,
            r matches Ok(img) ==> (img.tohost, img.fromhost) == loader::htif_symbols(bytes@, le_value(bytes@, 40, 8), le_value(bytes@, 58, 2), le_value(bytes@, 60, 2))
                && img.entry == le_value(bytes@, 24, 8),
            r is Ok ==> final(self).spec_bus().ram_view().bytes
                == loader::load_all(old(self).spec_bus().ram_view().bytes, old(self).spec_bus().ram_view().base,
                    loader::elf_segments(bytes@, old(self).spec_bus().ram_view()), bytes@),
            final(self).spec_bus().ram_view().base == old(self).spec_bus().ram_view().base,
            final(self).spec_irqstats() == old(self).spec_irqstats(),
            final(self).spec_coherence() == old(self).spec_coherence(),
    {
        proof { self.lemma_live_in_range(); }
        let loaded = loader::load_elf(bytes, self.bus.ram_mut());
        self.invalidate_ram();
        let img = match loaded {
            Ok(img) => img,
            Err(e) => return Err(e),
        };
        self.hart.regs.pc = img.entry;
        match img.tohost {
            Some(a) => self.set_htif(a),
            None => {
                self.htif = None;
                self.last_tohost = 0;
            },
        }
        Ok(img)
    }

    /// Load a flat kernel `Image` at `KERNEL_BASE` and return `kernel_end`, one past the last
    /// byte the running kernel occupies (its header's `image_size` when larger than the file).
    /// Fails `Access`, writing nothing, when that footprint does not fit in RAM above
    /// `KERNEL_BASE`, or when the file itself does not.
    pub fn load_kernel_image(&mut self, bytes: &[u8]) -> (r: Result<u64, BusFault>)
        requires old(self).wf(),
        ensures
            final(self).wf(),
            ({
                let end = virt::KERNEL_BASE + footprint_spec(bytes@);
                let ram = old(self).spec_bus().ram_view();
                if end > u64::MAX || end > ram.base + ram.bytes.len() {
                    r == Err::<u64, BusFault>(BusFault::Access) && final(self).spec_bus() == old(self).spec_bus()
                } else {
                    match ram_range(ram, virt::KERNEL_BASE, bytes@.len()) {
                        Ok(off) => r == Ok::<u64, BusFault>(end as u64)
                            && final(self).spec_bus().ram_view().bytes == splice(ram.bytes, off, bytes@),
                        Err(e) => r == Err::<u64, BusFault>(e) && final(self).spec_bus().ram_view() == ram,
                    }
                }
            }),
            final(self).spec_bus().ram_view().base == old(self).spec_bus().ram_view().base,
            final(self).spec_hart() == old(self).spec_hart(),
            final(self).spec_htif() == old(self).spec_htif(),
    {
        let footprint = kernel_image_footprint(bytes);
        let kernel_end = match virt::KERNEL_BASE.checked_add(footprint) {
            Some(e) => e,
            None => return Err(BusFault::Access),
        };
        let base = self.bus.ram().base();
        let len = self.bus.ram().len();
        proof { crate::ram::lemma_usize_fits_u64(len as nat); }
        let fits = match base.checked_add(len as u64) {
            Some(top) => kernel_end <= top,
            None => true,
        };
        if !fits {
            return Err(BusFault::Access);
        }
        proof { self.lemma_live_in_range(); }
        let written = self.bus.ram_mut().write_slice(virt::KERNEL_BASE, bytes);
        self.invalidate_ram();
        match written {
            Ok(()) => Ok(kernel_end),
            Err(f) => Err(f),
        }
    }

    /// Place a blob (initrd, DTB) at an absolute guest-physical address in RAM.
    pub fn load_blob(&mut self, addr: u64, bytes: &[u8]) -> (r: Result<(), BusFault>)
        requires old(self).wf(),
        ensures
            final(self).wf(),
            match ram_range(old(self).spec_bus().ram_view(), addr, bytes@.len()) {
                Ok(off) => r is Ok && final(self).spec_bus().ram_view().bytes == splice(old(self).spec_bus().ram_view().bytes, off, bytes@),
                Err(e) => r == Err::<(), BusFault>(e) && final(self).spec_bus().ram_view() == old(self).spec_bus().ram_view(),
            },
            final(self).spec_bus().ram_view().base == old(self).spec_bus().ram_view().base,
            final(self).spec_hart() == old(self).spec_hart(),
            final(self).spec_coherence() == old(self).spec_coherence(),
            final(self).spec_htif() == old(self).spec_htif(),
    {
        proof { self.lemma_live_in_range(); }
        let written = self.bus.ram_mut().write_slice(addr, bytes);
        self.invalidate_ram();
        written
    }

    /// Arm the HTIF watch on `tohost_addr`, remembering the word's current value so only a later
    /// change is acted on.
    pub fn set_htif(&mut self, tohost_addr: u64)
        requires old(self).wf(),
        ensures
            final(self).wf(),
            final(self).spec_htif() matches Some(h) && h.addr() == tohost_addr,
            final(self).spec_last_tohost() == (match old(self).spec_bus().load_value(tohost_addr, 8) {
                Ok(v) => v,
                Err(_) => 0u64,
            }),
            old(self).spec_bus().load_post(&final(self).spec_bus(), tohost_addr, 8),
            final(self).spec_hart() == old(self).spec_hart(),
            final(self).spec_irqstats() == old(self).spec_irqstats(),
            final(self).spec_htif_commands() == old(self).spec_htif_commands(),
            final(self).spec_coherence() == old(self).spec_coherence(),
    {
        let h = Htif::new(tohost_addr);
        let status = h.check(&mut self.bus);
        proof {
            match old(self).spec_bus().load_value(tohost_addr, 8) {
                Ok(v) => crate::htif::lemma_decode_roundtrip(v),
                Err(_) => {},
            }
        }
        self.htif = Some(h);
        self.last_tohost = status.raw_or_zero();
    }

    /// Count of unsupported HTIF command writes observed so far; each change of `tohost` to a
    /// command value is counted once.
    pub fn htif_command_count(&self) -> (r: u64)
        ensures r == self.spec_htif_commands(),
    {
        self.htif_commands
    }

    /// If HTIF is armed and `tohost` currently requests exit, the exit code; else `None`.
    pub fn htif_exit(&mut self) -> (r: Option<u64>)
        ensures
            match old(self).spec_htif() {
                None => r is None && final(self).spec_bus() == old(self).spec_bus(),
                Some(h) => old(self).spec_bus().load_post(&final(self).spec_bus(), h.addr(), 8)
                    && r == (match old(self).spec_bus().load_value(h.addr(), 8) {
                        Ok(v) => match decode_spec(v) {
                            HtifStatus::Exit(e) => Some(e.code),
                            _ => None::<u64>,
                        },
                        Err(_) => None::<u64>,
                    }),
            },
            final(self).spec_hart() == old(self).spec_hart(),
            final(self).spec_htif() == old(self).spec_htif(),
            final(self).spec_last_tohost() == old(self).spec_last_tohost(),
            final(self).spec_htif_commands() == old(self).spec_htif_commands(),
            final(self).spec_irqstats() == old(self).spec_irqstats(),
            final(self).spec_prof() == old(self).spec_prof(),
            final(self).spec_coherence() == old(self).spec_coherence(),
    {
        let h = match self.htif {
            Some(h) => h,
            None => return None,
        };
        match h.check(&mut self.bus) {
            HtifStatus::Exit(e) => Some(e.code),
            _ => None,
        }
    }

    /// One pure step: fetch, decode and execute a single instruction with no trap delivery. On
    /// `Err(trap)` the registers and PC are exactly as before. The block cache is not consulted.
    pub fn step(&mut self) -> (r: Result<(), Trap>)
        requires old(self).wf(),
        ensures
            final(self).wf(),
            legacy_step(old(self).spec_hart().regs, final(self).spec_hart().regs, old(self).spec_bus(), final(self).spec_bus(), r),
            final(self).spec_irqstats() == old(self).spec_irqstats(),
            final(self).spec_htif() == old(self).spec_htif(),
    {
        self.step_legacy(&mut NullSink)
    }

    /// Step one instruction, handing `sink` the retire record. HTIF is not consulted, nor the
    /// block cache.
    pub fn step_traced<T: TraceSink>(&mut self, sink: &mut T) -> (r: Result<(), Trap>)
        requires old(self).wf(),
        ensures
            final(self).wf(),
            legacy_step(old(self).spec_hart().regs, final(self).spec_hart().regs, old(self).spec_bus(), final(self).spec_bus(), r),
            final(self).spec_irqstats() == old(self).spec_irqstats(),
            final(self).spec_htif() == old(self).spec_htif(),
    {
        self.step_legacy(sink)
    }

    /// The RISCOF signature of `[begin, end)`: one 32-bit little-endian word per line as eight
    /// lowercase hex digits, read through the bus from `begin` rounded down to a word boundary; a
    /// word that faults reads as 0. Only a granularity of 4 is supported.
    pub fn signature(&mut self, begin: u64, end: u64, granularity: u32) -> (r: Result<String, String>)
        requires end <= u64::MAX - 3,
        ensures
            granularity != 4 ==> (r matches Err(m) && m@ == granularity_message(granularity)),
            granularity != 4 ==> final(self).spec_bus() == old(self).spec_bus(),
            granularity == 4 ==> (r matches Ok(s) && exists|bs: Seq<SystemBus<D>>, ws: Seq<u32>|
                #[trigger] signature_reads(bs, ws, (begin - begin % 4) as u64)
                && bs[0] == old(self).spec_bus() && bs.last() == final(self).spec_bus()
                && ws.len() == signature_words(begin, end) && signature_text(ws) == s@),
            final(self).spec_hart() == old(self).spec_hart(),
            final(self).spec_htif() == old(self).spec_htif(),
            final(self).spec_irqstats() == old(self).spec_irqstats(),
            final(self).spec_prof() == old(self).spec_prof(),
            old(self).wf() ==> final(self).wf(),
    {
        if granularity != 4 {
            let mut m = String::from_str("unsupported --signature-granularity ");
            push_digits(&mut m, granularity as u64, 10);
            m.append(" (only 4)");
            proof { reveal_strlit("unsupported --signature-granularity "); reveal_strlit(" (only 4)"); }
            return Err(m);
        }
        let mut out = String::new();
        let start = begin - begin % 4;
        let mut a = start;
        let ghost mut ws: Seq<u32> = Seq::empty();
        let ghost mut bs: Seq<SystemBus<D>> = seq![self.bus];
        while a < end
            invariant
                start == begin - begin % 4, start <= a, (a - start) % 4 == 0, end <= u64::MAX - 3,
                a < end ==> ws.len() == (a - start) / 4,
                a >= end ==> ws.len() == signature_words(begin, end),
                a == start + 4 * ws.len(),
                out@ == signature_text(ws),
                signature_reads(bs, ws, start), bs[0] == old(self).bus, bs.last() == self.bus,
                self.hart == old(self).hart, self.htif == old(self).htif, self.irqstats == old(self).irqstats,
                self.prof == old(self).prof, self.htif_commands == old(self).htif_commands,
                self.bus.ram_view() == old(self).bus.ram_view(), self.block_cache == old(self).block_cache,
                self.block_cursor == old(self).block_cursor, self.block_cache_enabled == old(self).block_cache_enabled,
                self.discovery == old(self).discovery, self.profiling == old(self).profiling,
                self.prof_countdown == old(self).prof_countdown, self.prof_lcg == old(self).prof_lcg,
                self.last_tohost == old(self).last_tohost, self.coherence == old(self).coherence,
            decreases if a < end { end - a } else { 0 },
        {
            let ghost before = self.bus;
            let lr = self.bus.load32(a);
            let w = match lr {
                Ok(w) => w,
                Err(_) => 0,
            };
            push_hex8(&mut out, w);
            out.append("\n");
            proof { reveal_strlit("\n"); }
            proof {
                assert((ws.push(w)).drop_last() =~= ws);
                let k = ws.len() as int;
                let ws2 = ws.push(w);
                let bs2 = bs.push(self.bus);
                assert(w == signature_word(before.load_value(a, 4)));
                assert forall|j: int| 0 <= j < ws2.len() implies #[trigger] ws2[j] == signature_word(bs2[j].load_value((start + 4 * j) as u64, 4))
                    && bs2[j].load_post(&bs2[j + 1], (start + 4 * j) as u64, 4) by {
                    if j < k {
                        assert(ws[j] == signature_word(bs[j].load_value((start + 4 * j) as u64, 4)));
                    }
                }
                ws = ws2;
                bs = bs2;
            }
            a = a + 4;
        }
        Ok(out)
    }

    /// The interrupt/trap counters.
    pub fn irq_stats(&self) -> (r: &IrqStats)
        ensures *r == self.spec_irqstats(),
    {
        &self.irqstats
    }

    /// The counter dump.
    pub fn stats_dump(&mut self) -> (r: String)
        ensures
            r@ == crate::diag::irqstats::dump_text(
                old(self).spec_irqstats().spec_retired(), old(self).spec_irqstats().spec_wfi(),
                old(self).spec_irqstats().spec_exc(), old(self).spec_irqstats().spec_int(),
                old(self).spec_irqstats().spec_claims(),
            ),
            *final(self) == *old(self),
    {
        self.irqstats.dump()
    }

    /// Arm or disarm hot-PC sampling. Arming restarts the countdown, so the first sample lands a
    /// full stride into the profiled span.
    pub fn set_profiling(&mut self, on: bool)
        requires old(self).wf(),
        ensures
            final(self).wf(),
            final(self).spec_profiling() == on,
            final(self).spec_prof() == old(self).spec_prof(),
            final(self).spec_hart() == old(self).spec_hart(),
            final(self).spec_bus() == old(self).spec_bus(),
            final(self).spec_irqstats() == old(self).spec_irqstats(),
    {
        self.profiling = on;
        if on {
            self.prof_countdown = PROF_STRIDE_BASE;
        }
    }

    /// The profiling aggregate (hot-PC histogram and subsystem time).
    pub fn profile(&self) -> (r: &ProfStats)
        ensures *r == self.spec_prof(),
    {
        &self.prof
    }

    /// Bind this machine to a build and a base disk image for snapshot coherence.
    pub fn set_snapshot_identity(&mut self, core_hash: [u8; 32], base_image_hash: [u8; 32])
        ensures
            final(self).spec_coherence() == (SnapshotCoherence {
                core_hash, base_image_hash, generation: old(self).spec_coherence().generation,
            }),
            final(self).spec_hart() == old(self).spec_hart(),
            final(self).spec_bus() == old(self).spec_bus(),
            old(self).wf() ==> final(self).wf(),
    {
        self.coherence.core_hash = core_hash;
        self.coherence.base_image_hash = base_image_hash;
    }

    /// The overlay-commit generation a snapshot would bind.
    pub fn overlay_generation(&self) -> (r: u64)
        ensures r == self.spec_coherence().generation,
    {
        self.coherence.generation
    }

    /// Advance the overlay-commit generation (saturating, so it never wraps back onto a value an
    /// outstanding snapshot could match) and return it.
    pub fn advance_overlay_generation(&mut self) -> (r: u64)
        ensures
            r == (if old(self).spec_coherence().generation == u64::MAX { u64::MAX } else {
                (old(self).spec_coherence().generation + 1) as u64
            }),
            final(self).spec_coherence() == (SnapshotCoherence { generation: r, ..old(self).spec_coherence() }),
            r >= old(self).spec_coherence().generation,
            final(self).spec_hart() == old(self).spec_hart(),
            final(self).spec_bus() == old(self).spec_bus(),
            old(self).wf() ==> final(self).wf(),
    {
        self.coherence.generation = self.coherence.generation.saturating_add(1);
        self.coherence.generation
    }

    /// The coherence binding this machine stamps.
    pub fn snapshot_coherence(&self) -> (r: &SnapshotCoherence)
        ensures *r == self.spec_coherence(),
    {
        &self.coherence
    }

    fn prof_next_stride(&mut self) -> (r: u32)
        ensures
            PROF_STRIDE_BASE <= r < PROF_STRIDE_BASE + PROF_STRIDE_JITTER,
            final(self).spec_hart() == old(self).spec_hart(),
            final(self).spec_bus() == old(self).spec_bus(),
            final(self).spec_irqstats() == old(self).spec_irqstats(),
            final(self).spec_prof() == old(self).spec_prof(),
            final(self).spec_htif() == old(self).spec_htif(),
            final(self).spec_last_tohost() == old(self).spec_last_tohost(),
            final(self).spec_htif_commands() == old(self).spec_htif_commands(),
            final(self).spec_profiling() == old(self).spec_profiling(),
            final(self).spec_coherence() == old(self).spec_coherence(),
            final(self).block_cache == old(self).block_cache, final(self).block_cursor == old(self).block_cursor,
            final(self).block_cache_enabled == old(self).block_cache_enabled, final(self).discovery == old(self).discovery,
    {
        self.prof_lcg = self.prof_lcg.wrapping_mul(1664525).wrapping_add(1013904223);
        PROF_STRIDE_BASE + (self.prof_lcg >> 24u32) % PROF_STRIDE_JITTER
    }

    /// Consult the HTIF watch after a retirement. Only a change of the `tohost` word is acted on:
    /// an exit request returns its code, and a command is counted once.
    fn htif_poll(&mut self) -> (r: Option<u64>)
        requires old(self).spec_htif_commands() < u64::MAX,
        ensures
            r matches Some(code) ==> old(self).spec_htif() is Some
                && decode_spec(final(self).spec_last_tohost()) == HtifStatus::Exit(crate::htif::Exit { code }),
            old(self).spec_htif() is None ==> r is None && final(self).spec_last_tohost() == old(self).spec_last_tohost()
                && final(self).spec_htif_commands() == old(self).spec_htif_commands() && final(self).bus == old(self).bus,
            old(self).spec_htif() matches Some(h) ==> old(self).bus.load_post(&final(self).bus, h.addr(), 8),
            old(self).spec_htif() matches Some(h) ==> ({
                let st = tohost_status(old(self).bus, h.addr());
                let changed = crate::htif::raw_spec(st) != old(self).spec_last_tohost();
                &&& final(self).spec_last_tohost() == crate::htif::raw_spec(st)
                &&& r == (if changed && st is Exit { Some(st->Exit_0.code) } else { None::<u64> })
                &&& final(self).spec_htif_commands() == (if changed && st is Command { (old(self).spec_htif_commands() + 1) as u64 } else { old(self).spec_htif_commands() })
            }),
            final(self).spec_htif_commands() == old(self).spec_htif_commands()
                || (r is None && final(self).spec_htif_commands() == old(self).spec_htif_commands() + 1),
            final(self).spec_hart() == old(self).spec_hart(),
            final(self).spec_irqstats() == old(self).spec_irqstats(),
            final(self).spec_prof() == old(self).spec_prof(),
            final(self).spec_htif() == old(self).spec_htif(),
            final(self).spec_profiling() == old(self).spec_profiling(),
            final(self).spec_coherence() == old(self).spec_coherence(),
            final(self).bus.ram_view() == old(self).bus.ram_view(),
            final(self).block_cache == old(self).block_cache, final(self).block_cursor == old(self).block_cursor,
            final(self).block_cache_enabled == old(self).block_cache_enabled, final(self).discovery == old(self).discovery,
    {
        let h = match self.htif {
            Some(h) => h,
            None => return None,
        };
        let ghost bus0 = self.bus;
        let status = h.check(&mut self.bus);
        proof {
            match bus0.load_value(h.addr(), 8) {
                Ok(v) => crate::htif::lemma_decode_roundtrip(v),
                Err(_) => {},
            }
        }
        let raw = status.raw_or_zero();
        if raw == self.last_tohost {
            return None;
        }
        self.last_tohost = raw;
        match status {
            HtifStatus::Exit(e) => Some(e.code),
            HtifStatus::Command(_) => {
                self.htif_commands = self.htif_commands + 1;
                None
            },
            HtifStatus::Idle => None,
        }
    }

    /// Step up to `max_instrs` instructions, consulting HTIF after each. Returns on the first
    /// guest exit, the first trap, or after exactly `max_instrs` retirements.
    pub fn run(&mut self, max_instrs: u64) -> (r: RunOutcome)
        requires old(self).wf(), old(self).spec_retired() + max_instrs <= u64::MAX,
        ensures
            final(self).wf(),
            run_outcome_ok(*old(self), *final(self), max_instrs, r),
            exists|tr: Seq<RunPoint<D>>| run_steps(*old(self), *final(self), max_instrs, r, tr),
    {
        self.run_traced(max_instrs, &mut NullSink)
    }

    /// [`Self::run`], handing `sink` one record per retired instruction.
    pub fn run_traced<T: TraceSink>(&mut self, max_instrs: u64, sink: &mut T) -> (r: RunOutcome)
        requires old(self).wf(), old(self).spec_retired() + max_instrs <= u64::MAX,
        ensures
            final(self).wf(),
            run_outcome_ok(*old(self), *final(self), max_instrs, r),
            exists|tr: Seq<RunPoint<D>>| run_steps(*old(self), *final(self), max_instrs, r, tr),
    {
        let ghost htif0 = old(self).spec_htif();
        let ghost mut tr: Seq<RunPoint<D>> = seq![(self.hart.regs, self.bus, self.bus, self.last_tohost, self.htif_commands)];
        let mut i: u64 = 0;
        while i < max_instrs
            invariant
                self.wf(), i <= max_instrs,
                self.spec_retired() == old(self).spec_retired() + i,
                old(self).spec_retired() + max_instrs <= u64::MAX,
                self.spec_htif() == old(self).spec_htif(),
                htif0 == old(self).spec_htif(),
                self.spec_profiling() == old(self).spec_profiling(),
                self.spec_coherence() == old(self).spec_coherence(),
                self.spec_htif_commands() >= old(self).spec_htif_commands(),
                self.spec_htif_commands() - old(self).spec_htif_commands() <= i,
                tr.len() == i + 1,
                run_trace(htif0, tr, i as int),
                tr[0] == (old(self).spec_hart().regs, old(self).spec_bus(), old(self).spec_bus(), old(self).spec_last_tohost(), old(self).spec_htif_commands()),
                tr.last().0 == self.hart.regs, tr.last().2 == self.bus,
                tr.last().3 == self.last_tohost, tr.last().4 == self.htif_commands,
            decreases max_instrs - i,
        {
            let prof_pc = self.hart.regs.pc;
            let stepped = if self.block_cache_enabled { self.step_cached(sink) } else { self.step_legacy(sink) };
            match stepped {
                Ok(()) => {},
                Err(trap) => {
                    proof {
                        if i > 0 {
                            assert(exit_of(htif0, tr[i - 1], tr[(i - 1) + 1]) is None);
                        }
                        assert(run_steps(*old(self), *self, max_instrs, RunOutcome::Trapped(trap), tr));
                    }
                    return RunOutcome::Trapped(trap);
                },
            }
            let ghost mid = self.bus;
            let ghost regs1 = self.hart.regs;
            self.irqstats.on_retire();
            if self.profiling {
                self.prof_countdown = self.prof_countdown.saturating_sub(1);
                if self.prof_countdown == 0 {
                    self.prof.record_pc(prof_pc);
                    self.prof_countdown = self.prof_next_stride();
                }
            }
            let ghost prev = tr.last();
            let polled_r = self.htif_poll();
            proof {
                let p: RunPoint<D> = (regs1, mid, self.bus, self.last_tohost, self.htif_commands);
                assert(run_iter(htif0, prev, p));
                let tr2 = tr.push(p);
                assert forall|j: int| 0 <= j < tr2.len() - 1 implies #[trigger] run_iter(htif0, tr2[j], tr2[j + 1]) by {
                    if j < tr.len() - 1 {
                        assert(tr2[j] == tr[j] && tr2[j + 1] == tr[j + 1]);
                    }
                }
                assert forall|j: int| 0 <= j < i && j < tr2.len() - 1 implies #[trigger] exit_of(htif0, tr2[j], tr2[j + 1]) is None by {
                    assert(tr2[j] == tr[j] && tr2[j + 1] == tr[j + 1]);
                }
                assert(exit_of(htif0, prev, p) == polled_r);
                tr = tr2;
            }
            if let Some(code) = polled_r {
                proof { assert(run_steps(*old(self), *self, max_instrs, RunOutcome::Exited(code), tr)); }
                return RunOutcome::Exited(code);
            }
            i += 1;
        }
        proof {
            if i > 0 {
                assert(exit_of(htif0, tr[i - 1], tr[(i - 1) + 1]) is None);
            }
            assert(run_steps(*old(self), *self, max_instrs, RunOutcome::MaxInstrs, tr));
        }
        RunOutcome::MaxInstrs
    }
}

/// One point of a run: the registers, the bus right after the step that reached them, the bus
/// after the HTIF poll that followed, the last `tohost` word seen, and the command count.
pub type RunPoint<D> = (XRegs, SystemBus<D>, SystemBus<D>, u64, u64);

/// What the HTIF poll after a retirement does: with no watch nothing; with a watch on `h` the
/// `tohost` word is read once, remembered, and a changed command word is counted once.
pub open spec fn polled<D: MmioDevice>(htif: Option<Htif>, a: RunPoint<D>, b: RunPoint<D>) -> bool {
    match htif {
        None => b.2 == b.1 && b.3 == a.3 && b.4 == a.4,
        Some(h) => {
            let st = tohost_status(b.1, h.addr());
            let changed = crate::htif::raw_spec(st) != a.3;
            &&& b.1.load_post(&b.2, h.addr(), 8)
            &&& b.3 == crate::htif::raw_spec(st)
            &&& b.4 == (if changed && st is Command { (a.4 + 1) as u64 } else { a.4 })
        },
    }
}

/// The exit code the poll between `a` and `b` reports: a changed `tohost` word that is an
/// exit request.
pub open spec fn exit_of<D: MmioDevice>(htif: Option<Htif>, a: RunPoint<D>, b: RunPoint<D>) -> Option<u64> {
    match htif {
        None => None,
        Some(h) => {
            let st = tohost_status(b.1, h.addr());
            if crate::htif::raw_spec(st) != a.3 && st is Exit { Some(st->Exit_0.code) } else { None }
        },
    }
}

/// One retirement of a run: a successful step from `a` to `b`, then the HTIF poll.
pub open spec fn run_iter<D: MmioDevice>(htif: Option<Htif>, a: RunPoint<D>, b: RunPoint<D>) -> bool {
    legacy_step(a.0, b.0, a.2, b.1, Ok(())) && polled(htif, a, b)
}

/// `tr` is a run of retirements, each following the previous point, none of the first `n`
/// ending the run with an exit.
pub open spec fn run_trace<D: MmioDevice>(htif: Option<Htif>, tr: Seq<RunPoint<D>>, n: int) -> bool {
    &&& tr.len() >= 1
    &&& forall|i: int| 0 <= i < tr.len() - 1 ==> #[trigger] run_iter(htif, tr[i], tr[i + 1])
    &&& forall|i: int| 0 <= i < n && i < tr.len() - 1 ==> #[trigger] exit_of(htif, tr[i], tr[i + 1]) is None
}

/// What a run from `before` to `after` did, step by step: a trace of retirements from the
/// starting point, one retire count per retirement, ending in the reported outcome: the budget
/// of `max_instrs` retirements used with no exit request; an exit request reported by the poll
/// after the last retirement; or a step from the last point that traps with `t` (registers
/// unchanged), with the budget not yet used and no exit before.
pub open spec fn run_steps<D: MmioDevice>(before: Machine<D>, after: Machine<D>, max_instrs: u64, r: RunOutcome, tr: Seq<RunPoint<D>>) -> bool {
    let htif = before.spec_htif();
    let k = tr.len() - 1;
    &&& run_trace(htif, tr, k - 1)
    &&& tr[0] == (before.spec_hart().regs, before.spec_bus(), before.spec_bus(), before.spec_last_tohost(), before.spec_htif_commands())
    &&& after.spec_retired() == before.spec_retired() + k
    &&& after.spec_last_tohost() == tr.last().3
    &&& after.spec_htif_commands() == tr.last().4
    &&& match r {
        RunOutcome::MaxInstrs => k == max_instrs && (k > 0 ==> exit_of(htif, tr[k - 1], tr[k]) is None)
            && after.spec_hart().regs == tr.last().0 && after.spec_bus() == tr.last().2,
        RunOutcome::Exited(code) => k > 0 && exit_of(htif, tr[k - 1], tr[k]) == Some(code)
            && after.spec_hart().regs == tr.last().0 && after.spec_bus() == tr.last().2,
        RunOutcome::Trapped(t) => k < max_instrs && (k > 0 ==> exit_of(htif, tr[k - 1], tr[k]) is None)
            && legacy_step(tr.last().0, after.spec_hart().regs, tr.last().2, after.spec_bus(), Err(t)),
        RunOutcome::Reset(_) => false,
    }
}

/// What a run of at most `max_instrs` instructions from `before` to `after` may report: the
/// budget ran out after exactly `max_instrs` retirements; or a trap ended it early; or the guest
/// requested exit, which needs an armed HTIF watch and a `tohost` word that decodes to that exit.
/// The HTIF binding, profiling switch and snapshot identity never change during a run, and at most
/// one command is counted per retirement.
pub open spec fn run_outcome_ok<D: MmioDevice>(before: Machine<D>, after: Machine<D>, max_instrs: u64, r: RunOutcome) -> bool {
    &&& after.spec_htif() == before.spec_htif()
    &&& after.spec_profiling() == before.spec_profiling()
    &&& after.spec_coherence() == before.spec_coherence()
    &&& after.spec_retired() <= before.spec_retired() + max_instrs
    &&& after.spec_htif_commands() >= before.spec_htif_commands()
    &&& after.spec_htif_commands() - before.spec_htif_commands() <= after.spec_retired() - before.spec_retired()
    &&& match r {
        RunOutcome::MaxInstrs => after.spec_retired() == before.spec_retired() + max_instrs,
        RunOutcome::Trapped(_) => after.spec_retired() < before.spec_retired() + max_instrs,
        RunOutcome::Exited(code) => before.spec_htif() is Some
            && decode_spec(after.spec_last_tohost()) == HtifStatus::Exit(crate::htif::Exit { code })
            && after.spec_retired() > before.spec_retired(),
        RunOutcome::Reset(_) => false,
    }
}

} // verus!
