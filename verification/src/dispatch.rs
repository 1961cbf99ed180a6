//! The predecoded basic-block cache and the block-discovery front end.
//!
//! A [`MicroOp`] is a decoded instruction with its guest length and raw bits. A
//! [`DecodedBlock`] is a run of micro-ops from an entry PC to the first terminator, never
//! crossing a physical page. The [`BlockCache`] memoizes blocks keyed by physical PC, with an
//! O(1) whole-cache flush (a generation bump) and page-granular invalidation.
//!
//! [`BlockDiscovery`] counts block entries and nominates a block once its counter reaches the
//! hotness threshold: a [`TranslationRequest`] snapshotting the raw bytes, per-op lengths and
//! terminator is pushed onto a bounded FIFO. Any invalidation bumps the discovery generation, and
//! a request is installed only if its generation is current and its bytes still match memory.

use vstd::prelude::*;
use crate::decode::Instr;

pub mod cache;
pub mod discovery;
pub mod probe;

pub use cache::BlockCache;
pub use discovery::{BlockDiscovery, NomState, HOT_THRESHOLD, MAX_COUNTS, MAX_QUEUE};
pub use probe::{AdmissionProbeStats, AdmissionReason, AdmissionWitness, MAX_ADMISSION_WITNESSES};

verus! {

/// Guest page granularity for block boundaries and code-page keying (the Sv39 base page).
pub const PAGE: u64 = 4096;

/// Max ops in a block.
pub const MAX_BLOCK_OPS: usize = 128;

/// A decoded instruction plus what the retire path needs: its guest length in bytes (2 or 4)
/// and the raw fetched bits.
#[derive(Debug, Clone, Copy, PartialEq, Eq, Structural)]
pub struct MicroOp {
    /// The decoded instruction.
    pub instr: Instr,
    /// Guest instruction length in bytes: 2 (compressed) or 4.
    pub len: u8,
    /// The raw fetched bits: the 16-bit parcel, zero-extended, or the 32-bit word.
    pub raw: u32,
}

/// How an instruction ends a block: its terminator class, or `FallThrough` for an instruction
/// that does not end one.
pub open spec fn terminator_kind(i: Instr) -> TerminatorKind {
    match i {
        Instr::Beq { .. } | Instr::Bne { .. } | Instr::Blt { .. } | Instr::Bge { .. }
        | Instr::Bltu { .. } | Instr::Bgeu { .. } => TerminatorKind::Branch,
        Instr::Jal { .. } => TerminatorKind::Jal,
        Instr::Jalr { .. } => TerminatorKind::Jalr,
        Instr::Ecall => TerminatorKind::Ecall,
        Instr::Ebreak => TerminatorKind::Ebreak,
        Instr::FenceI => TerminatorKind::FenceI,
        Instr::Mret => TerminatorKind::Mret,
        Instr::Sret => TerminatorKind::Sret,
        Instr::Wfi => TerminatorKind::Wfi,
        Instr::SfenceVma { .. } => TerminatorKind::SfenceVma,
        Instr::Fence { .. } => TerminatorKind::Fence,
        Instr::Csrrw { .. } | Instr::Csrrs { .. } | Instr::Csrrc { .. } | Instr::Csrrwi { .. }
        | Instr::Csrrsi { .. } | Instr::Csrrci { .. } => TerminatorKind::Csr,
        _ => TerminatorKind::FallThrough,
    }
}

/// The terminator class of a walked block: that of its last op, `FallThrough` when empty.
pub open spec fn block_terminator(ops: Seq<MicroOp>) -> TerminatorKind {
    if ops.len() == 0 { TerminatorKind::FallThrough } else { terminator_kind(ops.last().instr) }
}

/// Whether `instr` ends a basic block: any control transfer, environment call or break, return,
/// `wfi`, a fence (`fence`, `fence.i`, `sfence.vma`) or any CSR access.
pub fn is_terminator(instr: &Instr) -> (r: bool)
    ensures r == (terminator_kind(*instr) != TerminatorKind::FallThrough),
{
    match instr {
        Instr::Beq { .. } | Instr::Bne { .. } | Instr::Blt { .. } | Instr::Bge { .. }
        | Instr::Bltu { .. } | Instr::Bgeu { .. } | Instr::Jal { .. } | Instr::Jalr { .. }
        | Instr::Ecall | Instr::Ebreak | Instr::FenceI | Instr::Mret | Instr::Sret | Instr::Wfi
        | Instr::SfenceVma { .. } | Instr::Fence { .. } | Instr::Csrrw { .. } | Instr::Csrrs { .. }
        | Instr::Csrrc { .. } | Instr::Csrrwi { .. } | Instr::Csrrsi { .. } | Instr::Csrrci { .. } => true,
        _ => false,
    }
}

/// The classified block terminator: how a block exits. `FallThrough` means the block reached the
/// op cap or a page edge with no architectural terminator.
#[derive(Debug, Clone, Copy, PartialEq, Eq, Structural)]
pub enum TerminatorKind {
    /// A conditional branch.
    Branch,
    /// `jal`.
    Jal,
    /// `jalr`.
    Jalr,
    /// `ecall`.
    Ecall,
    /// `ebreak`.
    Ebreak,
    /// `fence.i`.
    FenceI,
    /// `mret`.
    Mret,
    /// `sret`.
    Sret,
    /// `wfi`.
    Wfi,
    /// `sfence.vma`.
    SfenceVma,
    /// `fence`.
    Fence,
    /// Any CSR read-write.
    Csr,
    /// No architectural terminator.
    FallThrough,
}

impl TerminatorKind {
    /// Classify one instruction; `FallThrough` for a non-terminator.
    pub fn of(instr: &Instr) -> (r: Self)
        ensures r == terminator_kind(*instr),
    {
        match instr {
            Instr::Beq { .. } | Instr::Bne { .. } | Instr::Blt { .. } | Instr::Bge { .. }
            | Instr::Bltu { .. } | Instr::Bgeu { .. } => TerminatorKind::Branch,
            Instr::Jal { .. } => TerminatorKind::Jal,
            Instr::Jalr { .. } => TerminatorKind::Jalr,
            Instr::Ecall => TerminatorKind::Ecall,
            Instr::Ebreak => TerminatorKind::Ebreak,
            Instr::FenceI => TerminatorKind::FenceI,
            Instr::Mret => TerminatorKind::Mret,
            Instr::Sret => TerminatorKind::Sret,
            Instr::Wfi => TerminatorKind::Wfi,
            Instr::SfenceVma { .. } => TerminatorKind::SfenceVma,
            Instr::Fence { .. } => TerminatorKind::Fence,
            Instr::Csrrw { .. } | Instr::Csrrs { .. } | Instr::Csrrc { .. } | Instr::Csrrwi { .. }
            | Instr::Csrrsi { .. } | Instr::Csrrci { .. } => TerminatorKind::Csr,
            _ => TerminatorKind::FallThrough,
        }
    }

    /// The terminator class of a walked block (its last op), `FallThrough` when empty.
    pub fn of_block(ops: &[MicroOp]) -> (r: Self)
        ensures r == block_terminator(ops@),
    {
        if ops.len() == 0 {
            TerminatorKind::FallThrough
        } else {
            TerminatorKind::of(&ops[ops.len() - 1].instr)
        }
    }

    /// Whether a block ending in this terminator stays in the interpreter: CSR accesses and
    /// `wfi` are excluded from nomination; every other terminator side-exits and is translatable
    /// up to the terminator.
    pub fn is_excluded(&self) -> (r: bool)
        ensures r == (*self == TerminatorKind::Csr || *self == TerminatorKind::Wfi),
    {
        matches!(self, TerminatorKind::Csr | TerminatorKind::Wfi)
    }
}

/// A nominated translation candidate: what a translator needs to compile a block without
/// re-reading guest memory, plus the generation that makes installing stale bytes impossible.
#[derive(Debug, Clone, PartialEq, Eq)]
pub struct TranslationRequest {
    /// Physical address of the block's entry instruction.
    pub phys_pc: u64,
    /// Raw guest instruction bytes, entry to terminator, little-endian.
    pub code_bytes: Vec<u8>,
    /// Per-op guest lengths (2 or 4), in program order.
    pub op_lens: Vec<u8>,
    /// How the block exits.
    pub terminator: TerminatorKind,
    /// The discovery generation the request was stamped in.
    pub generation: u64,
}

impl TranslationRequest {
    /// Snapshot a walked block: its raw bytes, per-op lengths and terminator, stamped with
    /// `generation`.
    pub fn from_block(phys_pc: u64, ops: &[MicroOp], generation: u64) -> (r: Self)
        requires forall|i: int| 0 <= i < ops@.len() ==> #[trigger] ops@[i].len <= 4,
        ensures is_request_of(r, phys_pc, ops@, generation),
    {
        let mut code_bytes: Vec<u8> = Vec::new();
        let mut op_lens: Vec<u8> = Vec::new();
        let mut i: usize = 0;
        while i < ops.len()
            invariant
                i <= ops@.len(),
                forall|j: int| 0 <= j < ops@.len() ==> #[trigger] ops@[j].len <= 4,
                code_bytes@ == block_code(ops@.subrange(0, i as int)),
                op_lens@ == block_lens(ops@.subrange(0, i as int)),
            decreases ops@.len() - i,
        {
            let op = ops[i];
            op_lens.push(op.len);
            let ghost start = code_bytes@;
            let mut b: u8 = 0;
            while b < op.len
                invariant
                    b <= op.len, op.len <= 4,
                    code_bytes@ == start + op_bytes(op).subrange(0, b as int),
                decreases op.len - b,
            {
                let byte = (op.raw >> (8 * (b as u32))) as u8;
                assert(byte == op_bytes(op)[b as int]);
                code_bytes.push(byte);
                assert(op_bytes(op).subrange(0, b as int).push(byte) =~= op_bytes(op).subrange(0, b + 1));
                b = b + 1;
            }
            assert(op_bytes(op).subrange(0, op.len as int) =~= op_bytes(op));
            assert(ops@.subrange(0, i + 1).drop_last() =~= ops@.subrange(0, i as int));
            assert(block_lens(ops@.subrange(0, i + 1)) =~= block_lens(ops@.subrange(0, i as int)).push(op.len));
            i = i + 1;
        }
        assert(ops@.subrange(0, ops@.len() as int) =~= ops@);
        TranslationRequest {
            phys_pc,
            code_bytes,
            op_lens,
            terminator: TerminatorKind::of_block(ops),
            generation,
        }
    }
}

/// The guest bytes of one op: the low `len` bytes of its raw bits, little-endian.
pub open spec fn op_bytes(op: MicroOp) -> Seq<u8> {
    Seq::new(op.len as nat, |b: int| (op.raw >> ((8 * b) as u32)) as u8)
}

/// The guest bytes of a walked block, entry to terminator.
pub open spec fn block_code(ops: Seq<MicroOp>) -> Seq<u8>
    decreases ops.len(),
{
    if ops.len() == 0 { Seq::empty() } else { block_code(ops.drop_last()) + op_bytes(ops.last()) }
}

/// The per-op guest lengths of a walked block.
pub open spec fn block_lens(ops: Seq<MicroOp>) -> Seq<u8> {
    ops.map_values(|o: MicroOp| o.len)
}

/// What a translation request holds, as contracts see it.
pub struct RequestModel {
    pub phys_pc: u64,
    pub code_bytes: Seq<u8>,
    pub op_lens: Seq<u8>,
    pub terminator: TerminatorKind,
    pub generation: u64,
}

impl View for TranslationRequest {
    type V = RequestModel;

    open spec fn view(&self) -> RequestModel {
        RequestModel {
            phys_pc: self.phys_pc,
            code_bytes: self.code_bytes@,
            op_lens: self.op_lens@,
            terminator: self.terminator,
            generation: self.generation,
        }
    }
}

/// The request for the block `ops` entered at `phys`, stamped with `generation`.
pub open spec fn request_model(phys: u64, ops: Seq<MicroOp>, generation: u64) -> RequestModel {
    RequestModel {
        phys_pc: phys,
        code_bytes: block_code(ops),
        op_lens: block_lens(ops),
        terminator: block_terminator(ops),
        generation,
    }
}

/// `r` is the request for the block `ops` entered at `phys`, stamped with `generation`.
pub open spec fn is_request_of(r: TranslationRequest, phys: u64, ops: Seq<MicroOp>, generation: u64) -> bool {
    r@ == request_model(phys, ops, generation)
}

/// A contiguous run of predecoded micro-ops from `phys_start` to the first terminator, or up to
/// (not across) a physical page boundary, or [`MAX_BLOCK_OPS`] ops.
#[derive(Debug, Clone)]
pub struct DecodedBlock {
    /// Physical address of the entry instruction: the cache key.
    pub phys_start: u64,
    /// The predecoded ops, in program order.
    pub ops: Vec<MicroOp>,
    /// Sum of the ops' guest lengths.
    pub total_len: u64,
    /// `phys_start >> 12`: every op of the block lives in this physical page.
    pub page_frame: u64,
    pub(crate) block_gen: u64,
}

/// What a block holds, as contracts see it.
pub struct BlockModel {
    pub phys_start: u64,
    pub ops: Seq<MicroOp>,
    pub total_len: u64,
    pub page_frame: u64,
    /// The cache generation the block was stamped with on insertion (0 before).
    pub generation: u64,
}

impl View for DecodedBlock {
    type V = BlockModel;

    closed spec fn view(&self) -> BlockModel {
        BlockModel {
            phys_start: self.phys_start,
            ops: self.ops@,
            total_len: self.total_len,
            page_frame: self.page_frame,
            generation: self.block_gen,
        }
    }
}

/// A block's model reads its fields.
pub(crate) proof fn lemma_block_view(b: &DecodedBlock)
    ensures
        b@.phys_start == b.phys_start, b@.ops == b.ops@, b@.total_len == b.total_len,
        b@.page_frame == b.page_frame, b@.generation == b.block_gen,
{
}

impl DecodedBlock {
    /// A block from its walked ops: at least one and at most [`MAX_BLOCK_OPS`], covering at
    /// most one page of bytes.
    pub fn new(phys_start: u64, ops: Vec<MicroOp>, total_len: u64) -> (b: Self)
        requires 1 <= ops@.len() <= MAX_BLOCK_OPS, total_len <= PAGE,
        ensures
            b@ == (BlockModel { phys_start, ops: ops@, total_len, page_frame: phys_start >> 12, generation: 0 }),
    {
        DecodedBlock { phys_start, ops, total_len, page_frame: phys_start >> 12, block_gen: 0 }
    }
}

/// Entry counts per admission reason.
#[derive(Debug, Clone, PartialEq, Eq)]
pub struct AdmissionReasons {
    pub counts_full: u64,
    pub counting: u64,
    pub nominated: u64,
    pub excluded: u64,
    pub dedup_queued: u64,
    pub dedup_excluded: u64,
    pub fifo_overflow: u64,
}

impl Default for AdmissionReasons {
    fn default() -> (r: Self)
        ensures
            r.counts_full == 0, r.counting == 0, r.nominated == 0, r.excluded == 0,
            r.dedup_queued == 0, r.dedup_excluded == 0, r.fifo_overflow == 0,
    {
        AdmissionReasons {
            counts_full: 0,
            counting: 0,
            nominated: 0,
            excluded: 0,
            dedup_queued: 0,
            dedup_excluded: 0,
            fifo_overflow: 0,
        }
    }
}

/// A snapshot of the discovery counters, exported through the profiling stats.
#[derive(Debug, Clone, Copy, PartialEq, Eq)]
pub struct DiscoveryStats {
    /// Blocks nominated (a request pushed onto the queue).
    pub nominated: u64,
    /// Re-nomination attempts suppressed by dedup.
    pub deduped: u64,
    /// Requests found stale at install time and dropped.
    pub dropped_stale: u64,
    /// Nominations dropped because the queue was full.
    pub dropped_overflow: u64,
    /// Cold candidates not tracked because the counter map was full.
    pub counts_dropped: u64,
    /// Blocks excluded from nomination by policy.
    pub excluded: u64,
    /// Current pending-queue depth.
    pub queue_depth: usize,
    /// High-water mark of the pending queue.
    pub queue_hwm: usize,
    /// Live sub-threshold candidates being counted.
    pub candidates: usize,
    /// The current discovery generation.
    pub generation: u64,
    /// Whole block-cache flushes performed.
    pub cache_flushes: u64,
    /// Live decoded blocks discarded by page-granular invalidation.
    pub blocks_discarded: u64,
    /// `fence.i` events that needed no whole-cache flush.
    pub fence_i: u64,
}

impl Default for DiscoveryStats {
    /// Every counter zero.
    fn default() -> (r: Self)
        ensures
            r.nominated == 0, r.deduped == 0, r.dropped_stale == 0, r.dropped_overflow == 0,
            r.counts_dropped == 0, r.excluded == 0, r.queue_depth == 0, r.queue_hwm == 0,
            r.candidates == 0, r.generation == 0, r.cache_flushes == 0, r.blocks_discarded == 0,
            r.fence_i == 0,
    {
        DiscoveryStats {
            nominated: 0,
            deduped: 0,
            dropped_stale: 0,
            dropped_overflow: 0,
            counts_dropped: 0,
            excluded: 0,
            queue_depth: 0,
            queue_hwm: 0,
            candidates: 0,
            generation: 0,
            cache_flushes: 0,
            blocks_discarded: 0,
            fence_i: 0,
        }
    }
}

} // verus!
