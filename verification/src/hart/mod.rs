//! The hart: architectural CPU state and the fetch-decode-execute step.
//!
//! Trap model: a trap *returns* from [`Hart::step`] with the PC still pointing at the faulting
//! instruction and no other architectural state modified; the host decides what happens next.
//! Cause codes mirror the privileged spec's `mcause` numbering.
//!
//! Misaligned data accesses trap (causes 4/6): the bus requires natural alignment. FENCE retires
//! as a no-op. A taken jump or branch to a target that is not 4-byte aligned traps with cause 0
//! and `tval` = target, writing no link register; a not-taken branch retires normally. ECALL
//! traps with cause 11 and `tval` 0, EBREAK with cause 3 and `tval` = pc.

use vstd::prelude::*;
use crate::bus::{Bus, BusFault, res8, res16, res32};
use crate::bus::mmap::DRAM_BASE;
use crate::decode::{Instr, decode, decode_spec, instr_wf};
use crate::trace::{MemOp, TraceRecord, TraceSink, NullSink};

pub mod fregs;
pub mod regs;

use regs::XRegs;

verus! {

/// Exception causes; [`Exception::code`] gives the `mcause` number.
#[derive(Debug, Clone, Copy, PartialEq, Eq)]
pub enum Exception {
    InstrAddrMisaligned,
    InstrAccessFault,
    IllegalInstruction,
    Breakpoint,
    LoadAddrMisaligned,
    LoadAccessFault,
    StoreAddrMisaligned,
    StoreAccessFault,
    EcallFromU,
    EcallFromS,
    EcallFromM,
    InstrPageFault,
    LoadPageFault,
    StorePageFault,
}

/// The `mcause` number of each exception.
pub open spec fn exception_code(e: Exception) -> u64 {
    match e {
        Exception::InstrAddrMisaligned => 0,
        Exception::InstrAccessFault => 1,
        Exception::IllegalInstruction => 2,
        Exception::Breakpoint => 3,
        Exception::LoadAddrMisaligned => 4,
        Exception::LoadAccessFault => 5,
        Exception::StoreAddrMisaligned => 6,
        Exception::StoreAccessFault => 7,
        Exception::EcallFromU => 8,
        Exception::EcallFromS => 9,
        Exception::EcallFromM => 11,
        Exception::InstrPageFault => 12,
        Exception::LoadPageFault => 13,
        Exception::StorePageFault => 15,
    }
}

impl Exception {
    /// The `mcause` number.
    pub fn code(self) -> (r: u64)
        ensures r == exception_code(self),
    {
        match self {
            Exception::InstrAddrMisaligned => 0,
            Exception::InstrAccessFault => 1,
            Exception::IllegalInstruction => 2,
            Exception::Breakpoint => 3,
            Exception::LoadAddrMisaligned => 4,
            Exception::LoadAccessFault => 5,
            Exception::StoreAddrMisaligned => 6,
            Exception::StoreAccessFault => 7,
            Exception::EcallFromU => 8,
            Exception::EcallFromS => 9,
            Exception::EcallFromM => 11,
            Exception::InstrPageFault => 12,
            Exception::LoadPageFault => 13,
            Exception::StorePageFault => 15,
        }
    }
}

/// A trap: why, plus the `mtval`-equivalent payload (faulting address or raw instruction word).
#[derive(Debug, Clone, Copy, PartialEq, Eq)]
pub struct Trap {
    pub cause: Exception,
    pub tval: u64,
}

/// One RV64 hart. `regs.pc` is the architectural PC.
#[derive(Clone, Copy)]
pub struct Hart {
    pub regs: XRegs,
}

/// `x + y` modulo 2^64.
pub open spec fn wadd(x: u64, y: u64) -> u64 {
    vstd::wrapping::u64_specs::wrapping_add(x, y)
}

/// Sign-extend the low 32 bits: the RV64 `*W` retirement rule.
pub open spec fn sext32(x: u32) -> u64 {
    x as i32 as i64 as u64
}

/// The effective address of a memory op: base plus sign-extended immediate, wrapping.
pub open spec fn ea_spec(base: u64, imm: i64) -> u64 {
    wadd(base, imm as u64)
}

/// What executing one instruction does, before any memory is touched.
pub enum Effect {
    /// Write `value` to `rd` (discarded for `x0`) and continue at `next_pc`.
    Retire { rd: u8, value: u64, next_pc: u64 },
    /// Load `width` bytes at `addr` into `rd`, sign- or zero-extended, and continue at pc + 4.
    Load { rd: u8, addr: u64, width: nat, signed: bool },
    /// Store the low `width` bytes of `value` at `addr` and continue at pc + 4.
    Store { addr: u64, width: nat, value: u64 },
    /// Trap without touching anything.
    Fault { trap: Trap },
}

/// A conditional branch: taken transfers to `pc + imm` (trapping on a misaligned target),
/// not taken falls through.
pub open spec fn branch_effect(taken: bool, pc: u64, imm: i64) -> Effect {
    if taken {
        let target = wadd(pc, imm as u64);
        if target & 3 != 0 {
            Effect::Fault { trap: Trap { cause: Exception::InstrAddrMisaligned, tval: target } }
        } else {
            Effect::Retire { rd: 0, value: 0, next_pc: target }
        }
    } else {
        Effect::Retire { rd: 0, value: 0, next_pc: wadd(pc, 4) }
    }
}

/// A jump to `target` linking `pc + 4` into `rd`, trapping on a misaligned target.
pub open spec fn jump_effect(rd: u8, pc: u64, target: u64) -> Effect {
    if target & 3 != 0 {
        Effect::Fault { trap: Trap { cause: Exception::InstrAddrMisaligned, tval: target } }
    } else {
        Effect::Retire { rd, value: wadd(pc, 4), next_pc: target }
    }
}

/// The effect of `i` on registers `x` at `pc` (RV64I semantics).
pub open spec fn effect(i: Instr, x: Seq<u64>, pc: u64) -> Effect {
    let pc4 = wadd(pc, 4);
    match i {
        Instr::Lui { rd, imm } => Effect::Retire { rd, value: imm as u64, next_pc: pc4 },
        Instr::Auipc { rd, imm } => Effect::Retire { rd, value: wadd(pc, imm as u64), next_pc: pc4 },
        Instr::Addi { rd, rs1, imm } => Effect::Retire { rd, value: wadd(x[rs1 as int], imm as u64), next_pc: pc4 },
        Instr::Slti { rd, rs1, imm } => Effect::Retire { rd, value: if (x[rs1 as int] as i64) < imm { 1 } else { 0 }, next_pc: pc4 },
        Instr::Sltiu { rd, rs1, imm } => Effect::Retire { rd, value: if x[rs1 as int] < imm as u64 { 1 } else { 0 }, next_pc: pc4 },
        Instr::Xori { rd, rs1, imm } => Effect::Retire { rd, value: x[rs1 as int] ^ (imm as u64), next_pc: pc4 },
        Instr::Ori { rd, rs1, imm } => Effect::Retire { rd, value: x[rs1 as int] | (imm as u64), next_pc: pc4 },
        Instr::Andi { rd, rs1, imm } => Effect::Retire { rd, value: x[rs1 as int] & (imm as u64), next_pc: pc4 },
        Instr::Slli { rd, rs1, shamt } => Effect::Retire { rd, value: x[rs1 as int] << shamt, next_pc: pc4 },
        Instr::Srli { rd, rs1, shamt } => Effect::Retire { rd, value: x[rs1 as int] >> shamt, next_pc: pc4 },
        Instr::Srai { rd, rs1, shamt } => Effect::Retire { rd, value: ((x[rs1 as int] as i64) >> shamt) as u64, next_pc: pc4 },
        Instr::Addiw { rd, rs1, imm } => Effect::Retire { rd, value: sext32(wadd(x[rs1 as int], imm as u64) as u32), next_pc: pc4 },
        Instr::Slliw { rd, rs1, shamt } => Effect::Retire { rd, value: sext32((x[rs1 as int] as u32) << shamt), next_pc: pc4 },
        Instr::Srliw { rd, rs1, shamt } => Effect::Retire { rd, value: sext32((x[rs1 as int] as u32) >> shamt), next_pc: pc4 },
        Instr::Sraiw { rd, rs1, shamt } => Effect::Retire { rd, value: sext32(((x[rs1 as int] as u32 as i32) >> shamt) as u32), next_pc: pc4 },
        Instr::Add { rd, rs1, rs2 } => Effect::Retire { rd, value: wadd(x[rs1 as int], x[rs2 as int]), next_pc: pc4 },
        Instr::Sub { rd, rs1, rs2 } => Effect::Retire { rd, value: vstd::wrapping::u64_specs::wrapping_sub(x[rs1 as int], x[rs2 as int]), next_pc: pc4 },
        Instr::Sll { rd, rs1, rs2 } => Effect::Retire { rd, value: x[rs1 as int] << (x[rs2 as int] & 0x3f), next_pc: pc4 },
        Instr::Slt { rd, rs1, rs2 } => Effect::Retire { rd, value: if (x[rs1 as int] as i64) < (x[rs2 as int] as i64) { 1 } else { 0 }, next_pc: pc4 },
        Instr::Sltu { rd, rs1, rs2 } => Effect::Retire { rd, value: if x[rs1 as int] < x[rs2 as int] { 1 } else { 0 }, next_pc: pc4 },
        Instr::Xor { rd, rs1, rs2 } => Effect::Retire { rd, value: x[rs1 as int] ^ x[rs2 as int], next_pc: pc4 },
        Instr::Srl { rd, rs1, rs2 } => Effect::Retire { rd, value: x[rs1 as int] >> (x[rs2 as int] & 0x3f), next_pc: pc4 },
        Instr::Sra { rd, rs1, rs2 } => Effect::Retire { rd, value: ((x[rs1 as int] as i64) >> (x[rs2 as int] & 0x3f)) as u64, next_pc: pc4 },
        Instr::Or { rd, rs1, rs2 } => Effect::Retire { rd, value: x[rs1 as int] | x[rs2 as int], next_pc: pc4 },
        Instr::And { rd, rs1, rs2 } => Effect::Retire { rd, value: x[rs1 as int] & x[rs2 as int], next_pc: pc4 },
        Instr::Addw { rd, rs1, rs2 } => Effect::Retire { rd, value: sext32(vstd::wrapping::u32_specs::wrapping_add(x[rs1 as int] as u32, x[rs2 as int] as u32)), next_pc: pc4 },
        Instr::Subw { rd, rs1, rs2 } => Effect::Retire { rd, value: sext32(vstd::wrapping::u32_specs::wrapping_sub(x[rs1 as int] as u32, x[rs2 as int] as u32)), next_pc: pc4 },
        Instr::Sllw { rd, rs1, rs2 } => Effect::Retire { rd, value: sext32((x[rs1 as int] as u32) << (x[rs2 as int] & 0x1f)), next_pc: pc4 },
        Instr::Srlw { rd, rs1, rs2 } => Effect::Retire { rd, value: sext32((x[rs1 as int] as u32) >> (x[rs2 as int] & 0x1f)), next_pc: pc4 },
        Instr::Sraw { rd, rs1, rs2 } => Effect::Retire { rd, value: sext32(((x[rs1 as int] as u32 as i32) >> (x[rs2 as int] & 0x1f)) as u32), next_pc: pc4 },
        Instr::Fence { .. } => Effect::Retire { rd: 0, value: 0, next_pc: pc4 },
        Instr::Lb { rd, rs1, imm } => Effect::Load { rd, addr: ea_spec(x[rs1 as int], imm), width: 1, signed: true },
        Instr::Lh { rd, rs1, imm } => Effect::Load { rd, addr: ea_spec(x[rs1 as int], imm), width: 2, signed: true },
        Instr::Lw { rd, rs1, imm } => Effect::Load { rd, addr: ea_spec(x[rs1 as int], imm), width: 4, signed: true },
        Instr::Ld { rd, rs1, imm } => Effect::Load { rd, addr: ea_spec(x[rs1 as int], imm), width: 8, signed: false },
        Instr::Lbu { rd, rs1, imm } => Effect::Load { rd, addr: ea_spec(x[rs1 as int], imm), width: 1, signed: false },
        Instr::Lhu { rd, rs1, imm } => Effect::Load { rd, addr: ea_spec(x[rs1 as int], imm), width: 2, signed: false },
        Instr::Lwu { rd, rs1, imm } => Effect::Load { rd, addr: ea_spec(x[rs1 as int], imm), width: 4, signed: false },
        Instr::Sb { rs1, rs2, imm } => Effect::Store { addr: ea_spec(x[rs1 as int], imm), width: 1, value: x[rs2 as int] },
        Instr::Sh { rs1, rs2, imm } => Effect::Store { addr: ea_spec(x[rs1 as int], imm), width: 2, value: x[rs2 as int] },
        Instr::Sw { rs1, rs2, imm } => Effect::Store { addr: ea_spec(x[rs1 as int], imm), width: 4, value: x[rs2 as int] },
        Instr::Sd { rs1, rs2, imm } => Effect::Store { addr: ea_spec(x[rs1 as int], imm), width: 8, value: x[rs2 as int] },
        Instr::Jal { rd, imm } => jump_effect(rd, pc, wadd(pc, imm as u64)),
        Instr::Jalr { rd, rs1, imm } => jump_effect(rd, pc, ea_spec(x[rs1 as int], imm) & !1u64),
        Instr::Beq { rs1, rs2, imm } => branch_effect(x[rs1 as int] == x[rs2 as int], pc, imm),
        Instr::Bne { rs1, rs2, imm } => branch_effect(x[rs1 as int] != x[rs2 as int], pc, imm),
        Instr::Blt { rs1, rs2, imm } => branch_effect((x[rs1 as int] as i64) < (x[rs2 as int] as i64), pc, imm),
        Instr::Bge { rs1, rs2, imm } => branch_effect((x[rs1 as int] as i64) >= (x[rs2 as int] as i64), pc, imm),
        Instr::Bltu { rs1, rs2, imm } => branch_effect(x[rs1 as int] < x[rs2 as int], pc, imm),
        Instr::Bgeu { rs1, rs2, imm } => branch_effect(x[rs1 as int] >= x[rs2 as int], pc, imm),
        Instr::Ecall => Effect::Fault { trap: Trap { cause: Exception::EcallFromM, tval: 0 } },
        Instr::Ebreak => Effect::Fault { trap: Trap { cause: Exception::Breakpoint, tval: pc } },
        _ => Effect::Fault { trap: Trap { cause: Exception::IllegalInstruction, tval: 0 } },
    }
}

/// A loaded value widened to 64 bits, sign- or zero-extended from `width` bytes.
pub open spec fn extend(v: u64, width: nat, signed: bool) -> u64 {
    if !signed {
        v
    } else if width == 1 {
        v as u8 as i8 as i64 as u64
    } else if width == 2 {
        v as u16 as i16 as i64 as u64
    } else {
        v as u32 as i32 as i64 as u64
    }
}

/// The low `width` bytes of `v`.
pub open spec fn truncate(v: u64, width: nat) -> u64 {
    if width == 1 {
        v as u8 as u64
    } else if width == 2 {
        v as u16 as u64
    } else if width == 4 {
        v as u32 as u64
    } else {
        v
    }
}

/// The architectural cause of a bus fault on a load.
pub open spec fn load_fault_spec(f: BusFault, addr: u64) -> Trap {
    Trap {
        cause: match f { BusFault::Misaligned => Exception::LoadAddrMisaligned, BusFault::Access => Exception::LoadAccessFault },
        tval: addr,
    }
}

/// The architectural cause of a bus fault on a store.
pub open spec fn store_fault_spec(f: BusFault, addr: u64) -> Trap {
    Trap {
        cause: match f { BusFault::Misaligned => Exception::StoreAddrMisaligned, BusFault::Access => Exception::StoreAccessFault },
        tval: addr,
    }
}

/// `after` is `before` with `value` written to `rd` (discarded for `x0`) and the PC at `next`.
pub open spec fn retired(before: XRegs, after: XRegs, rd: u8, value: u64, next: u64) -> bool {
    &&& after@ == (if rd == 0 { before@ } else { before@.update(rd as int, value) })
    &&& after.pc == next
}

/// The outcome of executing `i`: the result returned, the registers after, and the bus after.
pub open spec fn executed<B: Bus>(
    i: Instr, before: XRegs, after: XRegs, bus0: B, bus1: B, r: Result<(u8, u64, Option<MemOp>), Trap>,
) -> bool {
    match effect(i, before@, before.pc) {
        Effect::Retire { rd, value, next_pc } =>
            r == Ok::<(u8, u64, Option<MemOp>), Trap>((rd, value, None)) && retired(before, after, rd, value, next_pc) && bus1 == bus0,
        Effect::Fault { trap } => r == Err::<(u8, u64, Option<MemOp>), Trap>(trap) && after == before && bus1 == bus0,
        Effect::Load { rd, addr, width, signed } =>
            bus0.load_post(&bus1, addr, width) && match bus0.load_value(addr, width) {
                Ok(v) => {
                    let value = extend(v, width, signed);
                    r == Ok::<(u8, u64, Option<MemOp>), Trap>((rd, value, Some(MemOp { addr, len: width as u8, is_store: false, value: 0 })))
                        && retired(before, after, rd, value, wadd(before.pc, 4))
                },
                Err(f) => r == Err::<(u8, u64, Option<MemOp>), Trap>(load_fault_spec(f, addr)) && after == before,
            },
        Effect::Store { addr, width, value } =>
            bus0.store_post(&bus1, addr, width, truncate(value, width)) && match bus0.store_result(addr, width, truncate(value, width)) {
                Ok(_) => r == Ok::<(u8, u64, Option<MemOp>), Trap>((0, 0, Some(MemOp { addr, len: width as u8, is_store: true, value })))
                    && retired(before, after, 0, 0, wadd(before.pc, 4)),
                Err(f) => r == Err::<(u8, u64, Option<MemOp>), Trap>(store_fault_spec(f, addr)) && after == before,
            },
    }
}

fn load_fault(f: BusFault, addr: u64) -> (t: Trap)
    ensures t == load_fault_spec(f, addr),
{
    Trap {
        cause: match f { BusFault::Misaligned => Exception::LoadAddrMisaligned, BusFault::Access => Exception::LoadAccessFault },
        tval: addr,
    }
}

fn store_fault(f: BusFault, addr: u64) -> (t: Trap)
    ensures t == store_fault_spec(f, addr),
{
    Trap {
        cause: match f { BusFault::Misaligned => Exception::StoreAddrMisaligned, BusFault::Access => Exception::StoreAccessFault },
        tval: addr,
    }
}

fn sext32_exec(x: u32) -> (r: u64)
    ensures r == sext32(x),
{
    x as i32 as i64 as u64
}

/// Resolve a conditional branch into `(rd, value, next_pc)`.
fn branch(taken: bool, pc: u64, imm: i64) -> (r: Result<(u8, u64, u64), Trap>)
    ensures
        match branch_effect(taken, pc, imm) {
            Effect::Retire { rd, value, next_pc } => r == Ok::<(u8, u64, u64), Trap>((rd, value, next_pc)),
            Effect::Fault { trap } => r == Err::<(u8, u64, u64), Trap>(trap),
            _ => false,
        },
{
    if taken {
        let target = pc.wrapping_add(imm as u64);
        if target & 3 != 0 {
            return Err(Trap { cause: Exception::InstrAddrMisaligned, tval: target });
        }
        Ok((0, 0, target))
    } else {
        Ok((0, 0, pc.wrapping_add(4)))
    }
}


/// A step's result as the run loop sees it: whether the instruction retired or which trap it
/// raised.
pub open spec fn unit_result(x: Result<(u8, u64, Option<MemOp>), Trap>) -> Result<(), Trap> {
    match x {
        Ok(_) => Ok(()),
        Err(t) => Err(t),
    }
}

/// A step that fetched the word `w` at the PC: some bus state after the fetch, then either the
/// word is not an instruction (illegal-instruction trap, nothing else changes) or its decoded
/// instruction is executed from there.
pub open spec fn fetched_step<B: Bus>(before: XRegs, after: XRegs, bus0: B, bus1: B, w: u64, r: Result<(), Trap>) -> bool {
    exists|bus_mid: B| #[trigger] bus0.load_post(&bus_mid, before.pc, 4) && match decode_spec(w as u32) {
        Err(_) => r == Err::<(), Trap>(Trap { cause: Exception::IllegalInstruction, tval: w }) && bus1 == bus_mid && after == before,
        Ok(i) => exists|x: Result<(u8, u64, Option<MemOp>), Trap>|
            #[trigger] executed(i, before, after, bus_mid, bus1, x) && r == unit_result(x),
    }
}

/// A step's result with its memory access: the access of the retired instruction, or the trap.
pub open spec fn mem_result(x: Result<(u8, u64, Option<MemOp>), Trap>) -> Result<Option<MemOp>, Trap> {
    match x {
        Ok((_, _, m)) => Ok(m),
        Err(t) => Err(t),
    }
}

/// [`fetched_step`], with the memory access the step reports.
pub open spec fn fetched_step_mem<B: Bus>(before: XRegs, after: XRegs, bus0: B, bus1: B, w: u64, r: Result<Option<MemOp>, Trap>) -> bool {
    exists|bus_mid: B| #[trigger] bus0.load_post(&bus_mid, before.pc, 4) && match decode_spec(w as u32) {
        Err(_) => r == Err::<Option<MemOp>, Trap>(Trap { cause: Exception::IllegalInstruction, tval: w }) && bus1 == bus_mid && after == before,
        Ok(i) => exists|x: Result<(u8, u64, Option<MemOp>), Trap>|
            #[trigger] executed(i, before, after, bus_mid, bus1, x) && r == mem_result(x),
    }
}

/// The executor that handles `i`: 0 register-immediate, 1 register-register, 2 control flow and
/// environment, 3 loads, 4 stores.
pub open spec fn op_group(i: Instr) -> u8 {
    match i {
        Instr::Lui { .. } | Instr::Auipc { .. } | Instr::Addi { .. } | Instr::Slti { .. }
        | Instr::Sltiu { .. } | Instr::Xori { .. } | Instr::Ori { .. } | Instr::Andi { .. }
        | Instr::Slli { .. } | Instr::Srli { .. } | Instr::Srai { .. } | Instr::Addiw { .. }
        | Instr::Slliw { .. } | Instr::Srliw { .. } | Instr::Sraiw { .. } => 0,
        Instr::Add { .. } | Instr::Sub { .. } | Instr::Sll { .. } | Instr::Slt { .. }
        | Instr::Sltu { .. } | Instr::Xor { .. } | Instr::Srl { .. } | Instr::Sra { .. }
        | Instr::Or { .. } | Instr::And { .. } | Instr::Addw { .. } | Instr::Subw { .. }
        | Instr::Sllw { .. } | Instr::Srlw { .. } | Instr::Sraw { .. } => 1,
        Instr::Lb { .. } | Instr::Lh { .. } | Instr::Lw { .. } | Instr::Ld { .. }
        | Instr::Lbu { .. } | Instr::Lhu { .. } | Instr::Lwu { .. } => 3,
        Instr::Sb { .. } | Instr::Sh { .. } | Instr::Sw { .. } | Instr::Sd { .. } => 4,
        _ => 2,
    }
}

fn op_group_exec(i: Instr) -> (g: u8)
    ensures g == op_group(i),
{
    match i {
        Instr::Lui { .. } | Instr::Auipc { .. } | Instr::Addi { .. } | Instr::Slti { .. }
        | Instr::Sltiu { .. } | Instr::Xori { .. } | Instr::Ori { .. } | Instr::Andi { .. }
        | Instr::Slli { .. } | Instr::Srli { .. } | Instr::Srai { .. } | Instr::Addiw { .. }
        | Instr::Slliw { .. } | Instr::Srliw { .. } | Instr::Sraiw { .. } => 0,
        Instr::Add { .. } | Instr::Sub { .. } | Instr::Sll { .. } | Instr::Slt { .. }
        | Instr::Sltu { .. } | Instr::Xor { .. } | Instr::Srl { .. } | Instr::Sra { .. }
        | Instr::Or { .. } | Instr::And { .. } | Instr::Addw { .. } | Instr::Subw { .. }
        | Instr::Sllw { .. } | Instr::Srlw { .. } | Instr::Sraw { .. } => 1,
        Instr::Lb { .. } | Instr::Lh { .. } | Instr::Lw { .. } | Instr::Ld { .. }
        | Instr::Lbu { .. } | Instr::Lhu { .. } | Instr::Lwu { .. } => 3,
        Instr::Sb { .. } | Instr::Sh { .. } | Instr::Sw { .. } | Instr::Sd { .. } => 4,
        _ => 2,
    }
}

/// `r` is what a register-only effect `e` returns: the retire tuple, or the trap.
pub open spec fn outcome_of(e: Effect, r: Result<(u8, u64, u64), Trap>) -> bool {
    match e {
        Effect::Retire { rd, value, next_pc } => r == Ok::<(u8, u64, u64), Trap>((rd, value, next_pc)),
        Effect::Fault { trap } => r == Err::<(u8, u64, u64), Trap>(trap),
        _ => false,
    }
}

impl Default for Hart {
    /// The reset state, PC at `DRAM_BASE`.
    fn default() -> (h: Self)
        ensures
            h.regs.pc == DRAM_BASE,
            h.regs@.len() == 32, forall|i: int| 0 <= i < 32 ==> h.regs@[i] == 0,
    {
        Hart::new()
    }
}

impl Hart {
    /// A hart in the reset state, PC at `DRAM_BASE`.
    pub fn new() -> (h: Self)
        ensures
            h.regs.pc == DRAM_BASE,
            h.regs@.len() == 32, forall|i: int| 0 <= i < 32 ==> h.regs@[i] == 0,
    {
        let mut h = Hart { regs: XRegs::new() };
        h.reset(DRAM_BASE);
        h
    }

    /// The stable register dump (see [`XRegs::dump`]).
    pub fn dump(&self) -> (r: String)
        ensures r@ == crate::hart::regs::dump_text(self.regs@, self.regs.pc),
    {
        self.regs.dump()
    }

    /// Return the hart to the reset state with `pc = reset_vector`: all integer registers 0.
    pub fn reset(&mut self, reset_vector: u64)
        ensures
            final(self).regs.pc == reset_vector,
            final(self).regs@.len() == 32, forall|i: int| 0 <= i < 32 ==> final(self).regs@[i] == 0,
    {
        self.regs = XRegs::new();
        self.regs.pc = reset_vector;
    }

    /// Fetch at PC, decode, execute one instruction. On `Ok` the instruction retired; on
    /// `Err(trap)` the PC and every register are as they were before the call.
    pub fn step<B: Bus>(&mut self, bus: &mut B) -> (r: Result<(), Trap>)
        ensures
            r is Err ==> final(self).regs == old(self).regs,
            match old(bus).load_value(old(self).regs.pc, 4) {
                Err(BusFault::Access) => r == Err::<(), Trap>(Trap { cause: Exception::InstrAccessFault, tval: old(self).regs.pc })
                    && old(bus).load_post(final(bus), old(self).regs.pc, 4),
                Err(BusFault::Misaligned) => r == Err::<(), Trap>(Trap { cause: Exception::InstrAddrMisaligned, tval: old(self).regs.pc })
                    && old(bus).load_post(final(bus), old(self).regs.pc, 4),
                Ok(w) => fetched_step(old(self).regs, final(self).regs, *old(bus), *final(bus), w, r),
            },
    {
        let mut sink = NullSink;
        self.step_traced(bus, &mut sink)
    }

    /// Like [`Hart::step`], and hands `sink` one record after a successful retirement (never on a
    /// trapping step).
    pub fn step_traced<B: Bus, T: TraceSink>(&mut self, bus: &mut B, sink: &mut T) -> (r: Result<(), Trap>)
        ensures
            T::keeps_records() ==> (r is Err ==> final(sink).kept() == old(sink).kept()),
            T::keeps_records() ==> (r is Ok ==> final(sink).kept().len() == old(sink).kept().len() + 1
                && final(sink).kept().drop_last() == old(sink).kept()
                && final(sink).kept().last().pc == old(self).regs.pc),
            r is Err ==> final(self).regs == old(self).regs,
            match old(bus).load_value(old(self).regs.pc, 4) {
                Err(BusFault::Access) => r == Err::<(), Trap>(Trap { cause: Exception::InstrAccessFault, tval: old(self).regs.pc })
                    && old(bus).load_post(final(bus), old(self).regs.pc, 4),
                Err(BusFault::Misaligned) => r == Err::<(), Trap>(Trap { cause: Exception::InstrAddrMisaligned, tval: old(self).regs.pc })
                    && old(bus).load_post(final(bus), old(self).regs.pc, 4),
                Ok(w) => fetched_step(old(self).regs, final(self).regs, *old(bus), *final(bus), w, r),
            },
    {
        match self.step_mem(bus, sink) {
            Ok(_) => Ok(()),
            Err(t) => Err(t),
        }
    }

    /// [`Hart::step_traced`], also returning the memory access of the retired instruction, if any.
    pub fn step_mem<B: Bus, T: TraceSink>(&mut self, bus: &mut B, sink: &mut T) -> (r: Result<Option<MemOp>, Trap>)
        ensures
            T::keeps_records() ==> (r is Err ==> final(sink).kept() == old(sink).kept()),
            T::keeps_records() ==> (r is Ok ==> final(sink).kept().len() == old(sink).kept().len() + 1
                && final(sink).kept().drop_last() == old(sink).kept()
                && final(sink).kept().last().pc == old(self).regs.pc),
            r is Err ==> final(self).regs == old(self).regs,
            match old(bus).load_value(old(self).regs.pc, 4) {
                Err(BusFault::Access) => r == Err::<Option<MemOp>, Trap>(Trap { cause: Exception::InstrAccessFault, tval: old(self).regs.pc })
                    && old(bus).load_post(final(bus), old(self).regs.pc, 4),
                Err(BusFault::Misaligned) => r == Err::<Option<MemOp>, Trap>(Trap { cause: Exception::InstrAddrMisaligned, tval: old(self).regs.pc })
                    && old(bus).load_post(final(bus), old(self).regs.pc, 4),
                Ok(w) => fetched_step_mem(old(self).regs, final(self).regs, *old(bus), *final(bus), w, r),
            },
    {
        let pc = self.regs.pc;
        let ghost bus0 = *bus;
        let insn = match bus.load32(pc) {
            Ok(w) => w,
            Err(BusFault::Access) => {
                return Err(Trap { cause: Exception::InstrAccessFault, tval: pc });
            }
            Err(BusFault::Misaligned) => {
                return Err(Trap { cause: Exception::InstrAddrMisaligned, tval: pc });
            }
        };
        let ghost bus_mid = *bus;
        let instr = match decode(insn) {
            Ok(i) => i,
            Err(_) => {
                assert(bus0.load_post(&bus_mid, pc, 4));
                return Err(Trap { cause: Exception::IllegalInstruction, tval: insn as u64 });
            },
        };
        let x = self.execute(bus, instr);
        assert(executed(instr, old(self).regs, self.regs, bus_mid, *bus, x));
        assert(bus0.load_post(&bus_mid, pc, 4));
        let (rd, value, mem) = match x {
            Ok(t) => t,
            Err(t) => return Err(t),
        };
        let ghost kept0 = sink.kept();
        sink.retire(&TraceRecord { pc, insn, rd: if rd != 0 { Some((rd, value)) } else { None }, mem });
        proof {
            if T::keeps_records() {
                assert(sink.kept().drop_last() =~= kept0);
            }
        }
        Ok(mem)
    }

    /// Register-immediate and upper-immediate ops.
    #[verifier::rlimit(30)]
    fn exec_imm(regs: &XRegs, instr: Instr) -> (r: Result<(u8, u64, u64), Trap>)
        requires instr_wf(instr), regs@.len() == 32, op_group(instr) == 0,
        ensures outcome_of(effect(instr, regs@, regs.pc), r),
    {
        let pc = regs.pc;
        let pc4 = pc.wrapping_add(4);
        match instr {
            Instr::Lui { rd, imm } => Ok((rd, imm as u64, pc4)),
            Instr::Auipc { rd, imm } => Ok((rd, pc.wrapping_add(imm as u64), pc4)),
            Instr::Addi { rd, rs1, imm } => Ok((rd, regs.read(rs1).wrapping_add(imm as u64), pc4)),
            Instr::Slti { rd, rs1, imm } => Ok((rd, if (regs.read(rs1) as i64) < imm { 1 } else { 0 }, pc4)),
            Instr::Sltiu { rd, rs1, imm } => Ok((rd, if regs.read(rs1) < imm as u64 { 1 } else { 0 }, pc4)),
            Instr::Xori { rd, rs1, imm } => Ok((rd, regs.read(rs1) ^ imm as u64, pc4)),
            Instr::Ori { rd, rs1, imm } => Ok((rd, regs.read(rs1) | imm as u64, pc4)),
            Instr::Andi { rd, rs1, imm } => Ok((rd, regs.read(rs1) & imm as u64, pc4)),
            Instr::Slli { rd, rs1, shamt } => Ok((rd, regs.read(rs1) << shamt, pc4)),
            Instr::Srli { rd, rs1, shamt } => Ok((rd, regs.read(rs1) >> shamt, pc4)),
            Instr::Srai { rd, rs1, shamt } => Ok((rd, ((regs.read(rs1) as i64) >> shamt) as u64, pc4)),
            Instr::Addiw { rd, rs1, imm } => Ok((rd, sext32_exec(regs.read(rs1).wrapping_add(imm as u64) as u32), pc4)),
            Instr::Slliw { rd, rs1, shamt } => Ok((rd, sext32_exec((regs.read(rs1) as u32) << shamt), pc4)),
            Instr::Srliw { rd, rs1, shamt } => Ok((rd, sext32_exec((regs.read(rs1) as u32) >> shamt), pc4)),
            Instr::Sraiw { rd, rs1, shamt } => Ok((rd, sext32_exec((((regs.read(rs1) as u32) as i32) >> shamt) as u32), pc4)),
            _ => Err(Trap { cause: Exception::IllegalInstruction, tval: 0 }),
        }
    }

    /// Register-register ops.
    #[verifier::rlimit(30)]
    fn exec_reg(regs: &XRegs, instr: Instr) -> (r: Result<(u8, u64, u64), Trap>)
        requires instr_wf(instr), regs@.len() == 32, op_group(instr) == 1,
        ensures outcome_of(effect(instr, regs@, regs.pc), r),
    {
        let pc = regs.pc;
        let pc4 = pc.wrapping_add(4);
        match instr {
            Instr::Add { rd, rs1, rs2 } => Ok((rd, regs.read(rs1).wrapping_add(regs.read(rs2)), pc4)),
            Instr::Sub { rd, rs1, rs2 } => Ok((rd, regs.read(rs1).wrapping_sub(regs.read(rs2)), pc4)),
            Instr::Sll { rd, rs1, rs2 } => {
                let v2 = regs.read(rs2);
                let s = v2 & 0x3F;
                assert(s < 64) by (bit_vector) requires s == v2 & 0x3F;
                Ok((rd, regs.read(rs1) << s, pc4))
            }
            Instr::Slt { rd, rs1, rs2 } => Ok((rd, if (regs.read(rs1) as i64) < (regs.read(rs2) as i64) { 1 } else { 0 }, pc4)),
            Instr::Sltu { rd, rs1, rs2 } => Ok((rd, if regs.read(rs1) < regs.read(rs2) { 1 } else { 0 }, pc4)),
            Instr::Xor { rd, rs1, rs2 } => Ok((rd, regs.read(rs1) ^ regs.read(rs2), pc4)),
            Instr::Srl { rd, rs1, rs2 } => {
                let v2 = regs.read(rs2);
                let s = v2 & 0x3F;
                assert(s < 64) by (bit_vector) requires s == v2 & 0x3F;
                Ok((rd, regs.read(rs1) >> s, pc4))
            }
            Instr::Sra { rd, rs1, rs2 } => {
                let v2 = regs.read(rs2);
                let s = v2 & 0x3F;
                assert(s < 64) by (bit_vector) requires s == v2 & 0x3F;
                Ok((rd, ((regs.read(rs1) as i64) >> s) as u64, pc4))
            }
            Instr::Or { rd, rs1, rs2 } => Ok((rd, regs.read(rs1) | regs.read(rs2), pc4)),
            Instr::And { rd, rs1, rs2 } => Ok((rd, regs.read(rs1) & regs.read(rs2), pc4)),
            Instr::Addw { rd, rs1, rs2 } => Ok((rd, sext32_exec((regs.read(rs1) as u32).wrapping_add(regs.read(rs2) as u32)), pc4)),
            Instr::Subw { rd, rs1, rs2 } => Ok((rd, sext32_exec((regs.read(rs1) as u32).wrapping_sub(regs.read(rs2) as u32)), pc4)),
            Instr::Sllw { rd, rs1, rs2 } => {
                let v2 = regs.read(rs2);
                let s = v2 & 0x1F;
                assert(s < 32) by (bit_vector) requires s == v2 & 0x1F;
                Ok((rd, sext32_exec((regs.read(rs1) as u32) << s), pc4))
            }
            Instr::Srlw { rd, rs1, rs2 } => {
                let v2 = regs.read(rs2);
                let s = v2 & 0x1F;
                assert(s < 32) by (bit_vector) requires s == v2 & 0x1F;
                Ok((rd, sext32_exec((regs.read(rs1) as u32) >> s), pc4))
            }
            Instr::Sraw { rd, rs1, rs2 } => {
                let v2 = regs.read(rs2);
                let s = v2 & 0x1F;
                assert(s < 32) by (bit_vector) requires s == v2 & 0x1F;
                Ok((rd, sext32_exec((((regs.read(rs1) as u32) as i32) >> s) as u32), pc4))
            }
            _ => Err(Trap { cause: Exception::IllegalInstruction, tval: 0 }),
        }
    }

    /// Jumps, branches, FENCE and the environment traps.
    #[verifier::rlimit(30)]
    fn exec_ctrl(regs: &XRegs, instr: Instr) -> (r: Result<(u8, u64, u64), Trap>)
        requires instr_wf(instr), regs@.len() == 32, op_group(instr) == 2,
        ensures outcome_of(effect(instr, regs@, regs.pc), r),
    {
        let pc = regs.pc;
        let pc4 = pc.wrapping_add(4);
        match instr {
            Instr::Fence { .. } => Ok((0, 0, pc4)),
            Instr::Jal { rd, imm } => {
                let target = pc.wrapping_add(imm as u64);
                if target & 3 != 0 {
                    return Err(Trap { cause: Exception::InstrAddrMisaligned, tval: target });
                }
                Ok((rd, pc4, target))
            }
            Instr::Jalr { rd, rs1, imm } => {
                let target = regs.read(rs1).wrapping_add(imm as u64) & !1u64;
                if target & 3 != 0 {
                    return Err(Trap { cause: Exception::InstrAddrMisaligned, tval: target });
                }
                Ok((rd, pc4, target))
            }
            Instr::Beq { rs1, rs2, imm } => branch(regs.read(rs1) == regs.read(rs2), pc, imm),
            Instr::Bne { rs1, rs2, imm } => branch(regs.read(rs1) != regs.read(rs2), pc, imm),
            Instr::Blt { rs1, rs2, imm } => branch((regs.read(rs1) as i64) < (regs.read(rs2) as i64), pc, imm),
            Instr::Bge { rs1, rs2, imm } => branch((regs.read(rs1) as i64) >= (regs.read(rs2) as i64), pc, imm),
            Instr::Bltu { rs1, rs2, imm } => branch(regs.read(rs1) < regs.read(rs2), pc, imm),
            Instr::Bgeu { rs1, rs2, imm } => branch(regs.read(rs1) >= regs.read(rs2), pc, imm),
            Instr::Ecall => Err(Trap { cause: Exception::EcallFromM, tval: 0 }),
            Instr::Ebreak => Err(Trap { cause: Exception::Breakpoint, tval: pc }),

            _ => Err(Trap { cause: Exception::IllegalInstruction, tval: 0 }),
        }
    }

    /// Loads: effective address = rs1 + sext(imm), wrapping. A bus fault maps to cause 4/5
    /// with `tval` = the effective address, before any writeback.
    #[verifier::rlimit(30)]
    fn exec_load<B: Bus>(&mut self, bus: &mut B, instr: Instr) -> (r: Result<(u8, u64, Option<MemOp>), Trap>)
        requires instr_wf(instr), op_group(instr) == 3,
        ensures
            executed(instr, old(self).regs, final(self).regs, *old(bus), *final(bus), r),
            r is Err ==> final(self).regs == old(self).regs,
    {
        proof { self.regs.lemma_wf(); }
        let pc4 = self.regs.pc.wrapping_add(4);
        match instr {
            Instr::Lb { rd, rs1, imm } => {
                let a = self.regs.read(rs1).wrapping_add(imm as u64);
                let mem = Some(MemOp { addr: a, len: 1, is_store: false, value: 0 });
                match bus.load8(a) {
                    Ok(v) => {
                        let value = v as i8 as i64 as u64;
                        self.regs.write(rd, value);
                        self.regs.pc = pc4;
                        Ok((rd, value, mem))
                    }
                    Err(f) => Err(load_fault(f, a)),
                }
            }
            Instr::Lh { rd, rs1, imm } => {
                let a = self.regs.read(rs1).wrapping_add(imm as u64);
                let mem = Some(MemOp { addr: a, len: 2, is_store: false, value: 0 });
                match bus.load16(a) {
                    Ok(v) => {
                        let value = v as i16 as i64 as u64;
                        self.regs.write(rd, value);
                        self.regs.pc = pc4;
                        Ok((rd, value, mem))
                    }
                    Err(f) => Err(load_fault(f, a)),
                }
            }
            Instr::Lw { rd, rs1, imm } => {
                let a = self.regs.read(rs1).wrapping_add(imm as u64);
                let mem = Some(MemOp { addr: a, len: 4, is_store: false, value: 0 });
                match bus.load32(a) {
                    Ok(v) => {
                        let value = v as i32 as i64 as u64;
                        self.regs.write(rd, value);
                        self.regs.pc = pc4;
                        Ok((rd, value, mem))
                    }
                    Err(f) => Err(load_fault(f, a)),
                }
            }
            Instr::Ld { rd, rs1, imm } => {
                let a = self.regs.read(rs1).wrapping_add(imm as u64);
                let mem = Some(MemOp { addr: a, len: 8, is_store: false, value: 0 });
                match bus.load64(a) {
                    Ok(v) => {
                        let value = v;
                        self.regs.write(rd, value);
                        self.regs.pc = pc4;
                        Ok((rd, value, mem))
                    }
                    Err(f) => Err(load_fault(f, a)),
                }
            }
            Instr::Lbu { rd, rs1, imm } => {
                let a = self.regs.read(rs1).wrapping_add(imm as u64);
                let mem = Some(MemOp { addr: a, len: 1, is_store: false, value: 0 });
                match bus.load8(a) {
                    Ok(v) => {
                        let value = v as u64;
                        self.regs.write(rd, value);
                        self.regs.pc = pc4;
                        Ok((rd, value, mem))
                    }
                    Err(f) => Err(load_fault(f, a)),
                }
            }
            Instr::Lhu { rd, rs1, imm } => {
                let a = self.regs.read(rs1).wrapping_add(imm as u64);
                let mem = Some(MemOp { addr: a, len: 2, is_store: false, value: 0 });
                match bus.load16(a) {
                    Ok(v) => {
                        let value = v as u64;
                        self.regs.write(rd, value);
                        self.regs.pc = pc4;
                        Ok((rd, value, mem))
                    }
                    Err(f) => Err(load_fault(f, a)),
                }
            }
            Instr::Lwu { rd, rs1, imm } => {
                let a = self.regs.read(rs1).wrapping_add(imm as u64);
                let mem = Some(MemOp { addr: a, len: 4, is_store: false, value: 0 });
                match bus.load32(a) {
                    Ok(v) => {
                        let value = v as u64;
                        self.regs.write(rd, value);
                        self.regs.pc = pc4;
                        Ok((rd, value, mem))
                    }
                    Err(f) => Err(load_fault(f, a)),
                }
            }
            _ => Err(Trap { cause: Exception::IllegalInstruction, tval: 0 }),
        }
    }

    /// Stores: cause 6/7 with `tval` = effective address. A faulting bus store writes nothing.
    #[verifier::rlimit(30)]
    fn exec_store<B: Bus>(&mut self, bus: &mut B, instr: Instr) -> (r: Result<(u8, u64, Option<MemOp>), Trap>)
        requires instr_wf(instr), op_group(instr) == 4,
        ensures
            executed(instr, old(self).regs, final(self).regs, *old(bus), *final(bus), r),
            r is Err ==> final(self).regs == old(self).regs,
    {
        proof { self.regs.lemma_wf(); }
        let pc4 = self.regs.pc.wrapping_add(4);
        match instr {
            Instr::Sb { rs1, rs2, imm } => {
                let a = self.regs.read(rs1).wrapping_add(imm as u64);
                let v = self.regs.read(rs2);
                let mem = Some(MemOp { addr: a, len: 1, is_store: true, value: v });
                match bus.store8(a, v as u8) {
                    Ok(()) => {
                        self.regs.pc = pc4;
                        Ok((0, 0, mem))
                    }
                    Err(f) => Err(store_fault(f, a)),
                }
            }
            Instr::Sh { rs1, rs2, imm } => {
                let a = self.regs.read(rs1).wrapping_add(imm as u64);
                let v = self.regs.read(rs2);
                let mem = Some(MemOp { addr: a, len: 2, is_store: true, value: v });
                match bus.store16(a, v as u16) {
                    Ok(()) => {
                        self.regs.pc = pc4;
                        Ok((0, 0, mem))
                    }
                    Err(f) => Err(store_fault(f, a)),
                }
            }
            Instr::Sw { rs1, rs2, imm } => {
                let a = self.regs.read(rs1).wrapping_add(imm as u64);
                let v = self.regs.read(rs2);
                let mem = Some(MemOp { addr: a, len: 4, is_store: true, value: v });
                match bus.store32(a, v as u32) {
                    Ok(()) => {
                        self.regs.pc = pc4;
                        Ok((0, 0, mem))
                    }
                    Err(f) => Err(store_fault(f, a)),
                }
            }
            Instr::Sd { rs1, rs2, imm } => {
                let a = self.regs.read(rs1).wrapping_add(imm as u64);
                let v = self.regs.read(rs2);
                let mem = Some(MemOp { addr: a, len: 8, is_store: true, value: v });
                match bus.store64(a, v) {
                    Ok(()) => {
                        self.regs.pc = pc4;
                        Ok((0, 0, mem))
                    }
                    Err(f) => Err(store_fault(f, a)),
                }
            }
            _ => Err(Trap { cause: Exception::IllegalInstruction, tval: 0 }),
        }
    }

    /// Execute a decoded instruction. Returns the retire info `(rd, value, mem)`: what was
    /// written to the register file (`rd == 0` meaning no write) and the memory op, if any.
    /// Every arm either fully retires (writeback and PC advance) or traps having touched nothing.
    pub fn execute<B: Bus>(&mut self, bus: &mut B, instr: Instr) -> (r: Result<(u8, u64, Option<MemOp>), Trap>)
        requires instr_wf(instr),
        ensures
            executed(instr, old(self).regs, final(self).regs, *old(bus), *final(bus), r),
            r is Err ==> final(self).regs == old(self).regs,
    {
        proof { self.regs.lemma_wf(); }
        let g = op_group_exec(instr);
        if g == 3 {
            return self.exec_load(bus, instr);
        }
        if g == 4 {
            return self.exec_store(bus, instr);
        }
        let res = if g == 0 {
            Self::exec_imm(&self.regs, instr)
        } else if g == 1 {
            Self::exec_reg(&self.regs, instr)
        } else {
            Self::exec_ctrl(&self.regs, instr)
        };
        match res {
            Ok((rd, value, next_pc)) => {
                self.regs.write(rd, value);
                self.regs.pc = next_pc;
                Ok((rd, value, None))
            }
            Err(t) => Err(t),
        }
    }
}

/// The value of a 64-bit register read as an unsigned number.
pub open spec fn unsigned_value(v: u64) -> int {
    v as int
}

/// The value of a 64-bit register read as a two's-complement signed number.
pub open spec fn signed_value(v: u64) -> int {
    if v >= 0x8000_0000_0000_0000 { v - 0x1_0000_0000_0000_0000 } else { v as int }
}

/// The 64-bit pattern of a sign-extended immediate, read as an unsigned number.
pub open spec fn imm_unsigned(imm: i64) -> int {
    if imm < 0 { imm + 0x1_0000_0000_0000_0000 } else { imm as int }
}

/// The set-less-than-immediate laws: `sltiu` writes 1 exactly when `x[rs1]` is below the
/// sign-extended immediate as unsigned 64-bit numbers (so `sltiu rd, rs, 1` is `seqz`), `slti`
/// exactly when it is below the immediate as signed numbers, and both write 0 otherwise and go on
/// to the next instruction.
pub proof fn lemma_set_less_than_immediate(x: Seq<u64>, pc: u64, rd: u8, rs1: u8, imm: i64)
    requires x.len() == 32, rs1 < 32,
    ensures
        effect(Instr::Sltiu { rd, rs1, imm }, x, pc) matches Effect::Retire { rd: d, value, next_pc }
            && d == rd && next_pc == wadd(pc, 4)
            && (value == 1 || value == 0)
            && (value == 1 <==> unsigned_value(x[rs1 as int]) < imm_unsigned(imm)),
        effect(Instr::Slti { rd, rs1, imm }, x, pc) matches Effect::Retire { rd: d, value, next_pc }
            && d == rd && next_pc == wadd(pc, 4)
            && (value == 1 || value == 0)
            && (value == 1 <==> signed_value(x[rs1 as int]) < imm as int),
{
    let v = x[rs1 as int];
    assert((imm < 0 ==> (imm as u64) as int == imm + 0x1_0000_0000_0000_0000)
        && (imm >= 0 ==> (imm as u64) as int == imm as int)
        && (v >= 0x8000_0000_0000_0000u64 ==> (v as i64) as int == v - 0x1_0000_0000_0000_0000)
        && (v < 0x8000_0000_0000_0000u64 ==> (v as i64) as int == v as int)) by (bit_vector);
}

} // verus!
