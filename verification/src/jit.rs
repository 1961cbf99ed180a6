//! The boundary between the dispatch loop and a compiled-block executor: the frozen CPU-state
//! handoff a compiled block reads its registers from and writes its exit protocol to, the exit
//! codes it returns, and the cache-budget and chaining accounting the run loop reports.
//!
//! Guest registers travel as 64-bit words at fixed offsets (see [`abi`]); the byte image of the
//! handoff is those words little-endian, whatever the host.

use vstd::prelude::*;
use crate::dev::virtio::snd::snapshot::push_u64;
use crate::dev::virtio::snd::wire::u64_bytes;
use crate::hart::{Hart, Trap};

pub mod abi;

verus! {

/// Number of 64-bit words in the frozen handoff.
pub const HANDOFF_WORDS: usize = 71;
/// Number of 64-bit words in the auxiliary chain state after the handoff.
pub const CHAIN_WORDS: usize = 390;

/// Word index of a handoff byte offset.
pub open spec fn word_index(offset: u32) -> int {
    (offset - abi::XREG_BASE) / 8
}

/// Word index of a chain-state byte offset.
pub open spec fn chain_index(offset: u32) -> int {
    (offset - abi::HANDOFF_END) / 8
}

/// The handoff words after marshalling `regs` and `pc` into `old`: registers at the front, the
/// entry PC in its slot, everything else as it was.
pub open spec fn prepared(old: Seq<u64>, regs: Seq<u64>, pc: u64) -> Seq<u64> {
    Seq::new(old.len(), |i: int| if i < 32 { regs[i] } else if i == word_index(abi::ENTRY_PC) { pc } else { old[i] })
}

/// The register file a compiled module's words commit: `x0` stays zero, `x1..x31` from the words.
pub open spec fn committed(words: Seq<u64>) -> Seq<u64> {
    Seq::new(32, |i: int| if i == 0 { 0u64 } else { words[i] })
}

/// The little-endian byte image of a word sequence.
pub open spec fn words_bytes(words: Seq<u64>) -> Seq<u8>
    decreases words.len(),
{
    if words.len() == 0 { Seq::empty() } else { words_bytes(words.drop_last()) + u64_bytes(words.last()) }
}

/// Reusable transport buffer spanning the compiled module's frozen handoff byte range, plus the
/// auxiliary chain state that follows it.
pub struct CpuStateHandoff {
    words: Vec<u64>,
    chain: Vec<u64>,
}

impl CpuStateHandoff {
    /// The handoff and chain state have their fixed sizes.
    pub closed spec fn wf(&self) -> bool {
        self.words@.len() == HANDOFF_WORDS && self.chain@.len() == CHAIN_WORDS
    }

    /// The handoff words, indexed by byte offset / 8.
    pub closed spec fn spec_words(&self) -> Seq<u64> {
        self.words@
    }

    /// The chain-state words, indexed by (byte offset - `HANDOFF_END`) / 8.
    pub closed spec fn spec_chain(&self) -> Seq<u64> {
        self.chain@
    }

    /// Marshal the live integer registers and virtual entry PC. Reserved gaps and the prior exit
    /// header are left as they were.
    pub fn prepare(&mut self, hart: &Hart)
        requires old(self).wf(),
        ensures
            final(self).wf(),
            final(self).spec_words() == prepared(old(self).spec_words(), hart.regs@, hart.regs.pc),
            final(self).spec_chain() == old(self).spec_chain(),
    {
        proof { hart.regs.lemma_wf(); }
        let mut r: u8 = 0;
        while r < 32
            invariant
                r <= 32, self.words@.len() == HANDOFF_WORDS, self.chain@ == old(self).chain@,
                hart.regs@.len() == 32,
                forall|i: int| 0 <= i < HANDOFF_WORDS ==> #[trigger] self.words@[i]
                    == if i < r { hart.regs@[i] } else { old(self).words@[i] },
            decreases 32 - r,
        {
            let v = hart.regs.read(r);
            self.words.set(r as usize, v);
            r += 1;
        }
        self.put_u64(abi::ENTRY_PC, hart.regs.pc);
        assert(self.words@ =~= prepared(old(self).words@, hart.regs@, hart.regs.pc));
    }

    /// Commit the compiled module's integer-register image. `x0` is skipped, so it stays zero.
    pub fn commit_registers(&self, hart: &mut Hart)
        requires self.wf(),
        ensures
            final(hart).regs@ == committed(self.spec_words()),
            final(hart).regs.pc == old(hart).regs.pc,
    {
        proof { old(hart).regs.lemma_wf(); }
        let mut r: u8 = 1;
        while r < 32
            invariant
                1 <= r <= 32, self.words@.len() == HANDOFF_WORDS, self.wf(),
                hart.regs@.len() == 32, hart.regs@[0] == 0, hart.regs.pc == old(hart).regs.pc,
                forall|i: int| 1 <= i < r ==> #[trigger] hart.regs@[i] == self.words@[i],
            decreases 32 - r,
        {
            let v = self.get_u64((r as u32) * 8);
            hart.regs.write(r, v);
            r += 1;
        }
        assert(hart.regs@ =~= committed(self.words@));
    }

    /// Exit reason mirrored by the compiled block in the state header (its low 32 bits).
    pub fn exit_reason(&self) -> (r: i32)
        requires self.wf(),
        ensures r == self.spec_words()[word_index(abi::EXIT_REASON)] as i32,
    {
        #[verifier::truncate] (self.get_u64(abi::EXIT_REASON) as i32)
    }

    /// Guest PC materialized by the compiled block for its exit.
    pub fn exit_pc(&self) -> (r: u64)
        requires self.wf(),
        ensures r == self.spec_words()[word_index(abi::EXIT_PC)],
    {
        self.get_u64(abi::EXIT_PC)
    }

    /// Auxiliary exit payload written by the compiled block.
    pub fn exit_info(&self) -> (r: u64)
        requires self.wf(),
        ensures r == self.spec_words()[word_index(abi::EXIT_INFO)],
    {
        self.get_u64(abi::EXIT_INFO)
    }

    /// The handoff's byte image: every word little-endian, `HANDOFF_LEN` bytes.
    pub fn as_bytes(&self) -> (r: Vec<u8>)
        requires self.wf(),
        ensures r@ == words_bytes(self.spec_words()), r@.len() == abi::HANDOFF_LEN,
    {
        let mut out: Vec<u8> = Vec::new();
        let mut k: usize = 0;
        while k < self.words.len()
            invariant
                k <= self.words@.len(), self.words@.len() == HANDOFF_WORDS,
                out@ == words_bytes(self.words@.subrange(0, k as int)), out@.len() == 8 * k,
            decreases self.words.len() - k,
        {
            push_u64(&mut out, self.words[k]);
            assert(self.words@.subrange(0, k + 1).drop_last() =~= self.words@.subrange(0, k as int));
            k += 1;
        }
        assert(self.words@.subrange(0, self.words@.len() as int) =~= self.words@);
        out
    }

    /// Store `value` in the handoff word at byte `offset`.
    pub fn put_u64(&mut self, offset: u32, value: u64)
        requires old(self).wf(), offset % 8 == 0, offset < abi::HANDOFF_END,
        ensures
            final(self).wf(),
            final(self).spec_words() == old(self).spec_words().update(word_index(offset), value),
            final(self).spec_chain() == old(self).spec_chain(),
    {
        let index = ((offset - abi::XREG_BASE) / 8) as usize;
        self.words.set(index, value);
    }

    /// The handoff word at byte `offset`.
    pub fn get_u64(&self, offset: u32) -> (r: u64)
        requires self.wf(), offset % 8 == 0, offset < abi::HANDOFF_END,
        ensures r == self.spec_words()[word_index(offset)],
    {
        let index = ((offset - abi::XREG_BASE) / 8) as usize;
        self.words[index]
    }

    fn put_chain_u64(&mut self, offset: u32, value: u64)
        requires old(self).wf(), offset % 8 == 0, abi::HANDOFF_END <= offset < abi::CHAIN_STATE_END,
        ensures
            final(self).wf(),
            final(self).spec_chain() == old(self).spec_chain().update(chain_index(offset), value),
            final(self).spec_words() == old(self).spec_words(),
    {
        let index = ((offset - abi::HANDOFF_END) / 8) as usize;
        self.chain.set(index, value);
    }

    fn chain_u64(&self, offset: u32) -> (r: u64)
        requires self.wf(), offset % 8 == 0, abi::HANDOFF_END <= offset < abi::CHAIN_STATE_END,
        ensures r == self.spec_chain()[chain_index(offset)],
    {
        let index = ((offset - abi::HANDOFF_END) / 8) as usize;
        self.chain[index]
    }

    /// Initialize the bounded direct-chain header before one compiled invocation: nothing
    /// retired, the given budget and depth, no abort, no recorded stores. The handoff is untouched.
    pub fn begin_chain(&mut self, enabled: bool, budget: u64, depth: u64)
        requires old(self).wf(),
        ensures
            final(self).wf(),
            final(self).spec_words() == old(self).spec_words(),
            final(self).spec_chain() == old(self).spec_chain()
                .update(chain_index(abi::CHAIN_RETIRED), 0)
                .update(chain_index(abi::CHAIN_BUDGET), budget)
                .update(chain_index(abi::CHAIN_ABORT), 0)
                .update(chain_index(abi::CHAIN_DEPTH), depth)
                .update(chain_index(abi::CHAIN_ENABLED), if enabled { 1 } else { 0 })
                .update(chain_index(abi::CHAIN_STORE_COUNT), 0),
    {
        self.put_chain_u64(abi::CHAIN_RETIRED, 0);
        self.put_chain_u64(abi::CHAIN_BUDGET, budget);
        self.put_chain_u64(abi::CHAIN_ABORT, 0);
        self.put_chain_u64(abi::CHAIN_DEPTH, depth);
        self.put_chain_u64(abi::CHAIN_ENABLED, if enabled { 1 } else { 0 });
        self.put_chain_u64(abi::CHAIN_STORE_COUNT, 0);
    }

    /// Total retired instructions recorded by the current direct chain.
    pub fn chain_retired(&self) -> (r: u64)
        requires self.wf(),
        ensures r == self.spec_chain()[chain_index(abi::CHAIN_RETIRED)],
    {
        self.chain_u64(abi::CHAIN_RETIRED)
    }

    /// Number of raw inline-RAM stores recorded by the current compiled call.
    pub fn jit_store_count(&self) -> (r: u64)
        requires self.wf(),
        ensures r == self.spec_chain()[chain_index(abi::CHAIN_STORE_COUNT)],
    {
        self.chain_u64(abi::CHAIN_STORE_COUNT)
    }

    /// Raw-store record `index` as `(virtual_addr, physical_addr, width_bytes)`; `None` past the
    /// recorded count or the log's capacity.
    pub fn jit_store_record(&self, index: u64) -> (r: Option<(u64, u64, u64)>)
        requires self.wf(),
        ensures
            r == (if index >= self.spec_chain()[chain_index(abi::CHAIN_STORE_COUNT)]
                || index >= abi::CHAIN_STORE_CAPACITY {
                None
            } else {
                let base = chain_index(abi::CHAIN_STORE_BASE) + 3 * index;
                Some((self.spec_chain()[base], self.spec_chain()[base + 1], self.spec_chain()[base + 2]))
            }),
    {
        if index >= self.jit_store_count() || index >= abi::CHAIN_STORE_CAPACITY as u64 {
            return None;
        }
        let i = index as u32;
        let base = abi::CHAIN_STORE_BASE + i * abi::CHAIN_STORE_ENTRY_BYTES;
        Some((self.chain_u64(base), self.chain_u64(base + 8), self.chain_u64(base + 16)))
    }

    /// Drop the raw-store records after the host has applied their side effects.
    pub fn clear_jit_store_log(&mut self)
        requires old(self).wf(),
        ensures
            final(self).wf(),
            final(self).spec_words() == old(self).spec_words(),
            final(self).spec_chain() == old(self).spec_chain().update(chain_index(abi::CHAIN_STORE_COUNT), 0),
    {
        self.put_chain_u64(abi::CHAIN_STORE_COUNT, 0);
    }
}

impl Default for CpuStateHandoff {
    fn default() -> (r: Self)
        ensures
            r.wf(),
            r.spec_words() == Seq::new(HANDOFF_WORDS as nat, |i: int| 0u64),
            r.spec_chain() == Seq::new(CHAIN_WORDS as nat, |i: int| 0u64),
    {
        let mut words: Vec<u64> = Vec::new();
        let mut k: usize = 0;
        while k < HANDOFF_WORDS
            invariant k <= HANDOFF_WORDS, words@ == Seq::new(k as nat, |i: int| 0u64),
            decreases HANDOFF_WORDS - k,
        {
            words.push(0);
            k += 1;
            assert(words@ =~= Seq::new(k as nat, |i: int| 0u64));
        }
        let mut chain: Vec<u64> = Vec::new();
        let mut k: usize = 0;
        while k < CHAIN_WORDS
            invariant k <= CHAIN_WORDS, chain@ == Seq::new(k as nat, |i: int| 0u64),
            decreases CHAIN_WORDS - k,
        {
            chain.push(0);
            k += 1;
            assert(chain@ =~= Seq::new(k as nat, |i: int| 0u64));
        }
        CpuStateHandoff { words, chain }
    }
}

/// Marshalling a register file and committing it straight back leaves the registers as they
/// were: the handoff carries every register, and `x0` is zero on both sides.
pub proof fn lemma_prepare_commit_roundtrip(old_words: Seq<u64>, regs: Seq<u64>, pc: u64)
    requires old_words.len() == HANDOFF_WORDS, regs.len() == 32, regs[0] == 0,
    ensures committed(prepared(old_words, regs, pc)) == regs,
{
    assert(committed(prepared(old_words, regs, pc)) =~= regs);
}

/// The frozen exit-code enum. The translator emits the first three; `Budget` ends a direct chain
/// whose fuel ran out; everything else is reserved.
#[derive(Clone, Copy, Debug, PartialEq, Eq, Structural)]
pub enum ExitCode {
    /// Block ran to its end; resume at `next_pc`.
    Fallthrough,
    /// Taken conditional branch / `jal` / `jalr`; resume at `next_pc`.
    BranchTaken,
    /// A guest trap (`ecall`/`ebreak`) must be delivered at `next_pc`.
    Trap,
    /// Any reserved code, not produced by the current translator.
    Reserved(i32),
    /// The direct-chain fuel was exhausted before the next successor began.
    Budget,
}

/// The exit code for a compiled block's return value.
pub open spec fn exit_code_of(v: i32) -> ExitCode {
    if v == 0 {
        ExitCode::Fallthrough
    } else if v == 1 {
        ExitCode::BranchTaken
    } else if v == 2 {
        ExitCode::Trap
    } else if v == 8 {
        ExitCode::Budget
    } else {
        ExitCode::Reserved(v)
    }
}

impl ExitCode {
    /// Decode the `i32` a compiled `run` returns.
    pub fn from_i32(v: i32) -> (r: Self)
        ensures r == exit_code_of(v),
    {
        match v {
            0 => ExitCode::Fallthrough,
            1 => ExitCode::BranchTaken,
            2 => ExitCode::Trap,
            8 => ExitCode::Budget,
            other => ExitCode::Reserved(other),
        }
    }
}

/// The result of a compiled-block execution. `next_pc` / `exit_info` mirror the header slots the
/// block wrote before returning.
#[derive(Clone, Copy, Debug, PartialEq, Eq)]
pub struct JitExit {
    /// The exit code the block returned.
    pub code: ExitCode,
    /// Guest PC to resume at; for a trap exit the faulting instruction's PC.
    pub next_pc: u64,
    /// Aux payload: trap cause for an `ecall`/`ebreak` `Trap` exit.
    pub exit_info: u64,
    /// `Some` iff a load/store faulted: the precise trap the interpreter's access path produced.
    pub trap: Option<Trap>,
    /// Exact number of guest instructions retired by the compiled call; zero when not reported.
    pub retired: u64,
}

/// The translation-cache budget, enforced at install time against the executor's own estimates.
#[derive(Clone, Copy, Debug, PartialEq, Eq)]
pub struct JitCacheBudget {
    /// Max estimated live translated-code bytes.
    pub code_bytes: u64,
    /// Max live modules (batches).
    pub max_batches: usize,
    /// Max allocated table slots.
    pub table_slots: usize,
    /// Max estimated metadata bytes.
    pub metadata_bytes: u64,
}

impl Default for JitCacheBudget {
    /// 32 MiB of code, 256 modules, 128 table slots per module, 8 MiB of metadata.
    fn default() -> (r: Self)
        ensures
            r.code_bytes == 32 * 1024 * 1024, r.max_batches == 256,
            r.table_slots == 256 * 128, r.metadata_bytes == 8 * 1024 * 1024,
    {
        JitCacheBudget {
            code_bytes: 32 * 1024 * 1024,
            max_batches: 256,
            table_slots: 256 * 128,
            metadata_bytes: 8 * 1024 * 1024,
        }
    }
}

/// The two eviction policies: a full flush at the high-water mark, or least-recently-run batches
/// first down to the low-water mark.
#[derive(Clone, Copy, Debug, PartialEq, Eq, Structural)]
pub enum EvictPolicy {
    /// Drop the whole cache and let hot code re-translate.
    Flush,
    /// Evict the least-recently-run batch repeatedly down to the low-water mark.
    BatchLru,
}

impl Default for EvictPolicy {
    /// `BatchLru`, the more graceful degrader under a working set that fits after a little churn.
    fn default() -> (r: Self)
        ensures r == EvictPolicy::BatchLru,
    {
        EvictPolicy::BatchLru
    }
}

/// A snapshot of the translation-cache accounting: usage against budget, eviction activity, and
/// the re-translation counters.
#[derive(Clone, Copy, Debug, PartialEq, Eq)]
pub struct JitCacheStats {
    /// Current estimated live code bytes.
    pub code_bytes: u64,
    /// Current live batch count.
    pub batches: usize,
    /// Current allocated table slots.
    pub table_slots: usize,
    /// Current estimated metadata bytes.
    pub metadata_bytes: u64,
    /// The active budget.
    pub budget: JitCacheBudget,
    /// The active policy.
    pub policy: EvictPolicy,
    /// Cumulative batches evicted.
    pub evictions: u64,
    /// Cumulative full flushes.
    pub flushes: u64,
    /// Cumulative blocks recompiled after having been evicted.
    pub retranslations: u64,
    /// Cumulative blocks installed.
    pub installs: u64,
    /// The eviction/invalidation generation counter.
    pub generation: u64,
}

impl Default for JitCacheStats {
    /// Nothing in use, nothing evicted, the default budget and policy.
    fn default() -> (r: Self)
        ensures
            r.code_bytes == 0, r.batches == 0, r.table_slots == 0, r.metadata_bytes == 0,
            r.budget.code_bytes == 32 * 1024 * 1024, r.budget.max_batches == 256,
            r.budget.table_slots == 256 * 128, r.budget.metadata_bytes == 8 * 1024 * 1024,
            r.policy == EvictPolicy::BatchLru,
            r.evictions == 0, r.flushes == 0, r.retranslations == 0, r.installs == 0, r.generation == 0,
    {
        JitCacheStats {
            code_bytes: 0,
            batches: 0,
            table_slots: 0,
            metadata_bytes: 0,
            budget: JitCacheBudget::default(),
            policy: EvictPolicy::default(),
            evictions: 0,
            flushes: 0,
            retranslations: 0,
            installs: 0,
            generation: 0,
        }
    }
}

/// Default chain-depth budget: direct block-to-block links traversed before a chain must return
/// to the dispatch loop.
pub const CHAIN_DEPTH_BUDGET_DEFAULT: u32 = 32;

/// Number of buckets in the chain-depth histogram; the last is "that many links or more".
pub const CHAIN_DEPTH_HIST_LEN: usize = 65;

/// Chaining statistics, cumulative across a run.
#[derive(Clone, Copy, Debug, PartialEq, Eq)]
pub struct ChainStats {
    /// Edges linked, once per distinct edge.
    pub links_made: u64,
    /// Link slots restored to the dispatch stub by an invalidation.
    pub links_cut: u64,
    /// Times a chain ended and control returned to the dispatch loop.
    pub dispatch_entries: u64,
    /// The deepest chain seen this run.
    pub max_chain_depth: u32,
    /// Histogram of chain depths: bucket `min(depth, LEN - 1)` counts one per dispatch entry.
    pub depth_hist: [u64; 65],
}

impl Default for ChainStats {
    /// Every counter and bucket zero.
    fn default() -> (r: Self)
        ensures
            r.links_made == 0, r.links_cut == 0, r.dispatch_entries == 0, r.max_chain_depth == 0,
            forall|d: int| 0 <= d < CHAIN_DEPTH_HIST_LEN ==> r.depth_hist@[d] == 0,
    {
        ChainStats { links_made: 0, links_cut: 0, dispatch_entries: 0, max_chain_depth: 0, depth_hist: [0u64; 65] }
    }
}

/// Σ `d * hist[d]` over the first `n` buckets.
pub open spec fn links_sum(hist: Seq<u64>, n: int) -> int
    decreases n,
{
    if n <= 0 { 0 } else { links_sum(hist, n - 1) + (n - 1) * hist[n - 1] }
}

proof fn lemma_links_sum_mono(hist: Seq<u64>, k: int, n: int)
    requires 0 <= k <= n,
    ensures links_sum(hist, k) <= links_sum(hist, n),
    decreases n - k,
{
    if k < n {
        lemma_links_sum_mono(hist, k, n - 1);
        assert((n - 1) * hist[n - 1] >= 0) by (nonlinear_arith) requires n >= 1, hist[n - 1] >= 0;
    }
}

impl ChainStats {
    /// Total links followed across all chains this run (Σ depth · count).
    pub fn total_links_followed(&self) -> (r: u64)
        requires links_sum(self.depth_hist@, CHAIN_DEPTH_HIST_LEN as int) <= u64::MAX,
        ensures r == links_sum(self.depth_hist@, CHAIN_DEPTH_HIST_LEN as int),
    {
        let mut acc: u64 = 0;
        let mut d: usize = 0;
        while d < CHAIN_DEPTH_HIST_LEN
            invariant
                d <= CHAIN_DEPTH_HIST_LEN, self.depth_hist@.len() == CHAIN_DEPTH_HIST_LEN,
                acc == links_sum(self.depth_hist@, d as int),
                links_sum(self.depth_hist@, CHAIN_DEPTH_HIST_LEN as int) <= u64::MAX,
            decreases CHAIN_DEPTH_HIST_LEN - d,
        {
            proof {
                lemma_links_sum_mono(self.depth_hist@, d + 1, CHAIN_DEPTH_HIST_LEN as int);
                assert(d * self.depth_hist@[d as int] >= 0) by (nonlinear_arith)
                    requires d >= 0, self.depth_hist@[d as int] >= 0;
            }
            acc = acc + (d as u64) * self.depth_hist[d];
            d += 1;
        }
        acc
    }
}

} // verus!
