//! Taking the exit of a compiled block: where the hart resumes, how many of the block's
//! instructions retired, and which trap (if any) the block ended with.

use vstd::prelude::*;
use super::Machine;
use crate::decode::Instr;
use crate::dispatch::MicroOp;
use crate::hart::{Exception, Trap};
use crate::jit::{ExitCode, JitExit};
use crate::mmio::MmioDevice;

verus! {

/// The number of ops of a block walked from op `k` at address `p` before reaching `target`
/// (all remaining ops when it is never reached).
pub open spec fn ops_before(ops: Seq<MicroOp>, p: u64, target: u64, k: int) -> nat
    decreases ops.len() - k,
{
    if k < 0 || k >= ops.len() || p == target {
        0
    } else {
        1 + ops_before(ops, vstd::wrapping::u64_specs::wrapping_add(p, ops[k].len as u64), target, k + 1)
    }
}

/// How a compiled block of ops `ops` entered at `phys` ended, from its exit: the PC the hart
/// resumes at, the instructions retired, and the step's result. A normal exit (including a
/// spent chain budget or a reserved code) retired every op; a precise memory fault retired the
/// ops before the faulting one and carries its trap; any other trap exit is the block's
/// `ecall`/`ebreak` terminator, which retires nothing.
pub open spec fn jit_outcome(exit: JitExit, ops: Seq<MicroOp>, phys: u64) -> (u64, nat, Result<(), Trap>) {
    match exit.code {
        ExitCode::Trap => match exit.trap {
            Some(t) => (exit.next_pc, ops_before(ops, phys, exit.next_pc, 0), Err(t)),
            None => (exit.next_pc, if ops.len() > 0 { (ops.len() - 1) as nat } else { 0 },
                Err(if ops.len() > 0 && ops.last().instr == Instr::Ecall {
                    Trap { cause: Exception::EcallFromM, tval: 0 }
                } else {
                    Trap { cause: Exception::Breakpoint, tval: exit.next_pc }
                })),
        },
        _ => (exit.next_pc, ops.len(), Ok(())),
    }
}

proof fn lemma_ops_before_le(ops: Seq<MicroOp>, p: u64, target: u64, k: int)
    requires 0 <= k <= ops.len(),
    ensures ops_before(ops, p, target, k) <= ops.len() - k,
    decreases ops.len() - k,
{
    if k < ops.len() && p != target {
        lemma_ops_before_le(ops, vstd::wrapping::u64_specs::wrapping_add(p, ops[k].len as u64), target, k + 1);
    }
}

/// The number of ops retired before the op at `target`, walking from `phys`.
fn count_ops_before(ops: &[MicroOp], phys: u64, target: u64) -> (r: u64)
    requires ops@.len() <= u64::MAX,
    ensures r == ops_before(ops@, phys, target, 0),
{
    let mut retired: u64 = 0;
    let mut p = phys;
    let mut k: usize = 0;
    proof { lemma_ops_before_le(ops@, phys, target, 0); }
    while k < ops.len()
        invariant
            k <= ops@.len(), ops@.len() <= u64::MAX,
            retired == k,
            ops_before(ops@, phys, target, 0) == k + ops_before(ops@, p, target, k as int),
        decreases ops.len() - k,
    {
        if p == target {
            return retired;
        }
        p = p.wrapping_add(ops[k].len as u64);
        retired += 1;
        k += 1;
    }
    retired
}

impl<D: MmioDevice> Machine<D> {
    /// Take the exit of a compiled run of the block of ops `ops` entered at `phys` ([`jit_outcome`]):
    /// the hart resumes at the exit PC, the retire count advances once per retired op, and every
    /// cached RAM block is dropped, since the compiled code may have stored into code (its stores
    /// are not seen one by one). A block that ran through to a `fence.i` also restarts block
    /// discovery, as the interpreter's `fence.i` does. Returns the step's result.
    pub fn apply_jit_exit(&mut self, exit: JitExit, ops: &[MicroOp], phys: u64) -> (r: Result<(), Trap>)
        requires
            old(self).wf(),
            old(self).spec_retired() + ops@.len() <= u64::MAX,
        ensures
            final(self).wf(),
            ({
                let (pc, retired, res) = jit_outcome(exit, ops@, phys);
                &&& r == res
                &&& final(self).spec_hart().regs.pc == pc
                &&& final(self).spec_hart().regs@ == old(self).spec_hart().regs@
                &&& final(self).spec_retired() == old(self).spec_retired() + retired
            }),
            final(self).spec_bus() == old(self).spec_bus(),
            final(self).spec_htif() == old(self).spec_htif(),
            final(self).spec_coherence() == old(self).spec_coherence(),
            exit.code != ExitCode::Trap && ops@.len() > 0 && ops@.last().instr == Instr::FenceI
                ==> final(self).spec_discovery().counts == Map::<u64, u32>::empty(),
    {
        let n = ops.len() as u64;
        let (retired, result): (u64, Result<(), Trap>) = match exit.code {
            ExitCode::Trap => match exit.trap {
                Some(t) => (count_ops_before(ops, phys, exit.next_pc), Err(t)),
                None => {
                    let ecall = ops.len() > 0 && matches!(ops[ops.len() - 1].instr, Instr::Ecall);
                    let t = if ecall {
                        Trap { cause: Exception::EcallFromM, tval: 0 }
                    } else {
                        Trap { cause: Exception::Breakpoint, tval: exit.next_pc }
                    };
                    (if n > 0 { n - 1 } else { 0 }, Err(t))
                },
            },
            _ => (n, Ok(())),
        };
        proof { lemma_ops_before_le(ops@, phys, exit.next_pc, 0); }
        self.hart.regs.pc = exit.next_pc;
        let mut stats = crate::diag::irqstats::IrqStats::new();
        std::mem::swap(&mut stats, &mut self.irqstats);
        let ghost before = stats;
        let mut k: u64 = 0;
        while k < retired
            invariant
                k <= retired, retired <= n, n == ops@.len(),
                before.spec_retired() + n <= u64::MAX,
                stats.spec_retired() == before.spec_retired() + k,
            decreases retired - k,
        {
            stats.on_retire();
            k += 1;
        }
        std::mem::swap(&mut stats, &mut self.irqstats);
        proof { self.lemma_live_in_range(); }
        self.invalidate_ram();
        let fence_i = !matches!(exit.code, ExitCode::Trap) && ops.len() > 0 && matches!(ops[ops.len() - 1].instr, Instr::FenceI);
        if fence_i {
            self.discovery.on_invalidate();
        }
        self.block_cursor = None;
        result
    }
}

} // verus!
