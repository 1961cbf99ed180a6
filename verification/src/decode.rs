//! RV64I instruction decoding: a 32-bit instruction word to an [`Instr`].
//!
//! Register fields are 5 bits wide, so every register index in a decoded instruction is below
//! 32; shift amounts are 6 bits for the 64-bit forms and 5 bits for the `*W` forms.

use vstd::prelude::*;

verus! {

/// A decoded instruction. Immediates are sign-extended to `i64`.
///
/// Besides RV64I, the enum names the privileged and Zicsr instructions (`fence.i`, `mret`,
/// `sret`, `wfi`, `sfence.vma` and the six CSR accesses) so that block classification can tell
/// them apart. The base decoder here does not produce them, and the hart executes them as
/// illegal instructions.
#[derive(Debug, Clone, Copy, PartialEq, Eq, Structural)]
pub enum Instr {
    Lui { rd: u8, imm: i64 },
    Auipc { rd: u8, imm: i64 },
    Jal { rd: u8, imm: i64 },
    Jalr { rd: u8, rs1: u8, imm: i64 },
    Beq { rs1: u8, rs2: u8, imm: i64 },
    Bne { rs1: u8, rs2: u8, imm: i64 },
    Blt { rs1: u8, rs2: u8, imm: i64 },
    Bge { rs1: u8, rs2: u8, imm: i64 },
    Bltu { rs1: u8, rs2: u8, imm: i64 },
    Bgeu { rs1: u8, rs2: u8, imm: i64 },
    Lb { rd: u8, rs1: u8, imm: i64 },
    Lh { rd: u8, rs1: u8, imm: i64 },
    Lw { rd: u8, rs1: u8, imm: i64 },
    Ld { rd: u8, rs1: u8, imm: i64 },
    Lbu { rd: u8, rs1: u8, imm: i64 },
    Lhu { rd: u8, rs1: u8, imm: i64 },
    Lwu { rd: u8, rs1: u8, imm: i64 },
    Sb { rs1: u8, rs2: u8, imm: i64 },
    Sh { rs1: u8, rs2: u8, imm: i64 },
    Sw { rs1: u8, rs2: u8, imm: i64 },
    Sd { rs1: u8, rs2: u8, imm: i64 },
    Addi { rd: u8, rs1: u8, imm: i64 },
    Slti { rd: u8, rs1: u8, imm: i64 },
    Sltiu { rd: u8, rs1: u8, imm: i64 },
    Xori { rd: u8, rs1: u8, imm: i64 },
    Ori { rd: u8, rs1: u8, imm: i64 },
    Andi { rd: u8, rs1: u8, imm: i64 },
    Slli { rd: u8, rs1: u8, shamt: u32 },
    Srli { rd: u8, rs1: u8, shamt: u32 },
    Srai { rd: u8, rs1: u8, shamt: u32 },
    Addiw { rd: u8, rs1: u8, imm: i64 },
    Slliw { rd: u8, rs1: u8, shamt: u32 },
    Srliw { rd: u8, rs1: u8, shamt: u32 },
    Sraiw { rd: u8, rs1: u8, shamt: u32 },
    Add { rd: u8, rs1: u8, rs2: u8 },
    Sub { rd: u8, rs1: u8, rs2: u8 },
    Sll { rd: u8, rs1: u8, rs2: u8 },
    Slt { rd: u8, rs1: u8, rs2: u8 },
    Sltu { rd: u8, rs1: u8, rs2: u8 },
    Xor { rd: u8, rs1: u8, rs2: u8 },
    Srl { rd: u8, rs1: u8, rs2: u8 },
    Sra { rd: u8, rs1: u8, rs2: u8 },
    Or { rd: u8, rs1: u8, rs2: u8 },
    And { rd: u8, rs1: u8, rs2: u8 },
    Addw { rd: u8, rs1: u8, rs2: u8 },
    Subw { rd: u8, rs1: u8, rs2: u8 },
    Sllw { rd: u8, rs1: u8, rs2: u8 },
    Srlw { rd: u8, rs1: u8, rs2: u8 },
    Sraw { rd: u8, rs1: u8, rs2: u8 },
    Fence { pred: u8, succ: u8 },
    Ecall,
    Ebreak,
    FenceI,
    Mret,
    Sret,
    Wfi,
    SfenceVma { rs1: u8, rs2: u8 },
    Csrrw { rd: u8, rs1: u8, csr: u16 },
    Csrrs { rd: u8, rs1: u8, csr: u16 },
    Csrrc { rd: u8, rs1: u8, csr: u16 },
    Csrrwi { rd: u8, uimm: u8, csr: u16 },
    Csrrsi { rd: u8, uimm: u8, csr: u16 },
    Csrrci { rd: u8, uimm: u8, csr: u16 },
}

/// The word does not encode an RV64I instruction this decoder knows.
#[derive(Debug, Clone, Copy, PartialEq, Eq)]
pub struct DecodeError {
    /// The rejected instruction word.
    pub insn: u32,
}

/// Every register index is a 5-bit field; 64-bit shift amounts are below 64 and `*W` shift
/// amounts below 32.
pub open spec fn instr_wf(i: Instr) -> bool {
    match i {
        Instr::Lui { rd, .. } | Instr::Auipc { rd, .. } | Instr::Jal { rd, .. } => rd < 32,
        Instr::Jalr { rd, rs1, .. } | Instr::Lb { rd, rs1, .. } | Instr::Lh { rd, rs1, .. }
        | Instr::Lw { rd, rs1, .. } | Instr::Ld { rd, rs1, .. } | Instr::Lbu { rd, rs1, .. }
        | Instr::Lhu { rd, rs1, .. } | Instr::Lwu { rd, rs1, .. } | Instr::Addi { rd, rs1, .. }
        | Instr::Slti { rd, rs1, .. } | Instr::Sltiu { rd, rs1, .. } | Instr::Xori { rd, rs1, .. }
        | Instr::Ori { rd, rs1, .. } | Instr::Andi { rd, rs1, .. } | Instr::Addiw { rd, rs1, .. } => rd < 32 && rs1 < 32,
        Instr::Slli { rd, rs1, shamt } | Instr::Srli { rd, rs1, shamt } | Instr::Srai { rd, rs1, shamt } =>
            rd < 32 && rs1 < 32 && shamt < 64,
        Instr::Slliw { rd, rs1, shamt } | Instr::Srliw { rd, rs1, shamt } | Instr::Sraiw { rd, rs1, shamt } =>
            rd < 32 && rs1 < 32 && shamt < 32,
        Instr::Beq { rs1, rs2, .. } | Instr::Bne { rs1, rs2, .. } | Instr::Blt { rs1, rs2, .. }
        | Instr::Bge { rs1, rs2, .. } | Instr::Bltu { rs1, rs2, .. } | Instr::Bgeu { rs1, rs2, .. }
        | Instr::Sb { rs1, rs2, .. } | Instr::Sh { rs1, rs2, .. } | Instr::Sw { rs1, rs2, .. }
        | Instr::Sd { rs1, rs2, .. } => rs1 < 32 && rs2 < 32,
        Instr::Add { rd, rs1, rs2 } | Instr::Sub { rd, rs1, rs2 } | Instr::Sll { rd, rs1, rs2 }
        | Instr::Slt { rd, rs1, rs2 } | Instr::Sltu { rd, rs1, rs2 } | Instr::Xor { rd, rs1, rs2 }
        | Instr::Srl { rd, rs1, rs2 } | Instr::Sra { rd, rs1, rs2 } | Instr::Or { rd, rs1, rs2 }
        | Instr::And { rd, rs1, rs2 } | Instr::Addw { rd, rs1, rs2 } | Instr::Subw { rd, rs1, rs2 }
        | Instr::Sllw { rd, rs1, rs2 } | Instr::Srlw { rd, rs1, rs2 } | Instr::Sraw { rd, rs1, rs2 } =>
            rd < 32 && rs1 < 32 && rs2 < 32,
        Instr::Fence { .. } | Instr::Ecall | Instr::Ebreak | Instr::FenceI | Instr::Mret | Instr::Sret
        | Instr::Wfi => true,
        Instr::SfenceVma { rs1, rs2 } => rs1 < 32 && rs2 < 32,
        Instr::Csrrw { rd, rs1, csr } | Instr::Csrrs { rd, rs1, csr } | Instr::Csrrc { rd, rs1, csr } =>
            rd < 32 && rs1 < 32 && csr < 4096,
        Instr::Csrrwi { rd, uimm, csr } | Instr::Csrrsi { rd, uimm, csr } | Instr::Csrrci { rd, uimm, csr } =>
            rd < 32 && uimm < 32 && csr < 4096,
    }
}

/// Sign-extend the low `bits` bits of `x`.
pub open spec fn sext_spec(x: u32, bits: u32) -> i64 {
    (((x << ((32 - bits) as u32)) as i32) >> ((32 - bits) as u32)) as i64
}

/// The destination register field.
pub open spec fn field_rd(insn: u32) -> u8 { ((insn >> 7u32) & 31) as u8 }
/// The first source register field.
pub open spec fn field_rs1(insn: u32) -> u8 { ((insn >> 15u32) & 31) as u8 }
/// The second source register field.
pub open spec fn field_rs2(insn: u32) -> u8 { ((insn >> 20u32) & 31) as u8 }
/// The I-type immediate.
pub open spec fn imm_i(insn: u32) -> i64 { sext_spec(insn >> 20u32, 12) }
/// The S-type immediate.
pub open spec fn imm_s(insn: u32) -> i64 { sext_spec(((insn >> 25u32) << 5u32) | ((insn >> 7u32) & 31), 12) }
/// The B-type immediate.
pub open spec fn imm_b(insn: u32) -> i64 {
    sext_spec(
        (((insn >> 31u32) & 1) << 12u32) | (((insn >> 7u32) & 1) << 11u32) | (((insn >> 25u32) & 0x3f) << 5u32)
            | (((insn >> 8u32) & 0xf) << 1u32),
        13,
    )
}
/// The U-type immediate.
pub open spec fn imm_u(insn: u32) -> i64 { ((insn & 0xffff_f000) as i32) as i64 }
/// The J-type immediate.
pub open spec fn imm_j(insn: u32) -> i64 {
    sext_spec(
        (((insn >> 31u32) & 1) << 20u32) | (((insn >> 12u32) & 0xff) << 12u32) | (((insn >> 20u32) & 1) << 11u32)
            | (((insn >> 21u32) & 0x3ff) << 1u32),
        21,
    )
}

/// What an instruction word decodes to: the RV64I encoding tables by opcode, `funct3` and
/// `funct7`; any other word is rejected with itself as the error.
pub open spec fn decode_spec(insn: u32) -> Result<Instr, DecodeError> {
    let opcode = insn & 0x7f;
    let rd = field_rd(insn);
    let funct3 = (insn >> 12u32) & 7;
    let rs1 = field_rs1(insn);
    let rs2 = field_rs2(insn);
    let funct7 = insn >> 25u32;
    let imm_i = imm_i(insn);
    let imm_s = imm_s(insn);
    let imm_b = imm_b(insn);
    let imm_u = imm_u(insn);
    let imm_j = imm_j(insn);
    let shamt6 = (insn >> 20u32) & 63;
    let shamt5 = (insn >> 20u32) & 31;
    let funct6 = insn >> 26u32;
    let bad = Err(DecodeError { insn });
    match opcode {
        0x37u32 => Ok(Instr::Lui { rd, imm: imm_u }),
        0x17 => Ok(Instr::Auipc { rd, imm: imm_u }),
        0x6f => Ok(Instr::Jal { rd, imm: imm_j }),
        0x67 => if funct3 == 0 { Ok(Instr::Jalr { rd, rs1, imm: imm_i }) } else { bad },
        0x63 => match funct3 {
            0 => Ok(Instr::Beq { rs1, rs2, imm: imm_b }),
            1 => Ok(Instr::Bne { rs1, rs2, imm: imm_b }),
            4 => Ok(Instr::Blt { rs1, rs2, imm: imm_b }),
            5 => Ok(Instr::Bge { rs1, rs2, imm: imm_b }),
            6 => Ok(Instr::Bltu { rs1, rs2, imm: imm_b }),
            7 => Ok(Instr::Bgeu { rs1, rs2, imm: imm_b }),
            _ => bad,
        },
        0x03 => match funct3 {
            0 => Ok(Instr::Lb { rd, rs1, imm: imm_i }),
            1 => Ok(Instr::Lh { rd, rs1, imm: imm_i }),
            2 => Ok(Instr::Lw { rd, rs1, imm: imm_i }),
            3 => Ok(Instr::Ld { rd, rs1, imm: imm_i }),
            4 => Ok(Instr::Lbu { rd, rs1, imm: imm_i }),
            5 => Ok(Instr::Lhu { rd, rs1, imm: imm_i }),
            6 => Ok(Instr::Lwu { rd, rs1, imm: imm_i }),
            _ => bad,
        },
        0x23 => match funct3 {
            0 => Ok(Instr::Sb { rs1, rs2, imm: imm_s }),
            1 => Ok(Instr::Sh { rs1, rs2, imm: imm_s }),
            2 => Ok(Instr::Sw { rs1, rs2, imm: imm_s }),
            3 => Ok(Instr::Sd { rs1, rs2, imm: imm_s }),
            _ => bad,
        },
        0x13 => match funct3 {
            0 => Ok(Instr::Addi { rd, rs1, imm: imm_i }),
            2 => Ok(Instr::Slti { rd, rs1, imm: imm_i }),
            3 => Ok(Instr::Sltiu { rd, rs1, imm: imm_i }),
            4 => Ok(Instr::Xori { rd, rs1, imm: imm_i }),
            6 => Ok(Instr::Ori { rd, rs1, imm: imm_i }),
            7 => Ok(Instr::Andi { rd, rs1, imm: imm_i }),
            1 => if funct6 == 0 { Ok(Instr::Slli { rd, rs1, shamt: shamt6 }) } else { bad },
            _ => if funct6 == 0 {
                Ok(Instr::Srli { rd, rs1, shamt: shamt6 })
            } else if funct6 == 0x10 {
                Ok(Instr::Srai { rd, rs1, shamt: shamt6 })
            } else {
                bad
            },
        },
        0x1b => match funct3 {
            0 => Ok(Instr::Addiw { rd, rs1, imm: imm_i }),
            1 => if funct7 == 0 { Ok(Instr::Slliw { rd, rs1, shamt: shamt5 }) } else { bad },
            5 => if funct7 == 0 {
                Ok(Instr::Srliw { rd, rs1, shamt: shamt5 })
            } else if funct7 == 0x20 {
                Ok(Instr::Sraiw { rd, rs1, shamt: shamt5 })
            } else {
                bad
            },
            _ => bad,
        },
        0x33 => if funct7 == 0 {
            match funct3 {
                0 => Ok(Instr::Add { rd, rs1, rs2 }),
                1 => Ok(Instr::Sll { rd, rs1, rs2 }),
                2 => Ok(Instr::Slt { rd, rs1, rs2 }),
                3 => Ok(Instr::Sltu { rd, rs1, rs2 }),
                4 => Ok(Instr::Xor { rd, rs1, rs2 }),
                5 => Ok(Instr::Srl { rd, rs1, rs2 }),
                6 => Ok(Instr::Or { rd, rs1, rs2 }),
                _ => Ok(Instr::And { rd, rs1, rs2 }),
            }
        } else if funct7 == 0x20 && funct3 == 0 {
            Ok(Instr::Sub { rd, rs1, rs2 })
        } else if funct7 == 0x20 && funct3 == 5 {
            Ok(Instr::Sra { rd, rs1, rs2 })
        } else {
            bad
        },
        0x3b => if funct7 == 0 && funct3 == 0 {
            Ok(Instr::Addw { rd, rs1, rs2 })
        } else if funct7 == 0 && funct3 == 1 {
            Ok(Instr::Sllw { rd, rs1, rs2 })
        } else if funct7 == 0 && funct3 == 5 {
            Ok(Instr::Srlw { rd, rs1, rs2 })
        } else if funct7 == 0x20 && funct3 == 0 {
            Ok(Instr::Subw { rd, rs1, rs2 })
        } else if funct7 == 0x20 && funct3 == 5 {
            Ok(Instr::Sraw { rd, rs1, rs2 })
        } else {
            bad
        },
        0x0f => if funct3 == 0 {
            Ok(Instr::Fence { pred: ((insn >> 24) & 0xf) as u8, succ: ((insn >> 20) & 0xf) as u8 })
        } else {
            bad
        },
        0x73 => if insn == 0x0000_0073 {
            Ok(Instr::Ecall)
        } else if insn == 0x0010_0073 {
            Ok(Instr::Ebreak)
        } else {
            bad
        },
        _ => bad,
    }
}


fn sext(x: u32, bits: u32) -> (r: i64)
    requires 0 < bits <= 32,
    ensures r == sext_spec(x, bits),
{
    let shift: u32 = 32 - bits;
    let v: i32 = ((x << shift) as i32) >> shift;
    v as i64
}

/// Decode one 32-bit instruction word.
pub fn decode(insn: u32) -> (r: Result<Instr, DecodeError>)
    ensures
        r == decode_spec(insn),
        r matches Ok(i) ==> instr_wf(i),
{
    let opcode = insn & 0x7f;
    let rd = ((insn >> 7u32) & 31) as u8;
    let funct3 = (insn >> 12u32) & 7;
    let rs1 = ((insn >> 15u32) & 31) as u8;
    let rs2 = ((insn >> 20u32) & 31) as u8;
    let funct7 = insn >> 25u32;
    proof {
        assert(((insn >> 7) & 31) < 32) by (bit_vector);
        assert(((insn >> 15) & 31) < 32) by (bit_vector);
        assert(((insn >> 20) & 31) < 32) by (bit_vector);
        assert(((insn >> 20) & 63) < 64) by (bit_vector);
    }
    let imm_i = sext(insn >> 20u32, 12);
    let imm_s = sext(((insn >> 25u32) << 5u32) | ((insn >> 7u32) & 31), 12);
    let imm_b = sext(
        (((insn >> 31u32) & 1) << 12u32) | (((insn >> 7u32) & 1) << 11u32) | (((insn >> 25u32) & 0x3f) << 5u32)
            | (((insn >> 8u32) & 0xf) << 1u32),
        13,
    );
    let imm_u = (insn & 0xffff_f000) as i32 as i64;
    let imm_j = sext(
        (((insn >> 31u32) & 1) << 20u32) | (((insn >> 12u32) & 0xff) << 12u32) | (((insn >> 20u32) & 1) << 11u32)
            | (((insn >> 21u32) & 0x3ff) << 1u32),
        21,
    );
    let shamt6 = (insn >> 20u32) & 63;
    let shamt5 = (insn >> 20u32) & 31;
    let funct6 = insn >> 26u32;
    let bad = Err(DecodeError { insn });
    match opcode {
        0x37 => Ok(Instr::Lui { rd, imm: imm_u }),
        0x17 => Ok(Instr::Auipc { rd, imm: imm_u }),
        0x6f => Ok(Instr::Jal { rd, imm: imm_j }),
        0x67 => if funct3 == 0 { Ok(Instr::Jalr { rd, rs1, imm: imm_i }) } else { bad },
        0x63 => match funct3 {
            0 => Ok(Instr::Beq { rs1, rs2, imm: imm_b }),
            1 => Ok(Instr::Bne { rs1, rs2, imm: imm_b }),
            4 => Ok(Instr::Blt { rs1, rs2, imm: imm_b }),
            5 => Ok(Instr::Bge { rs1, rs2, imm: imm_b }),
            6 => Ok(Instr::Bltu { rs1, rs2, imm: imm_b }),
            7 => Ok(Instr::Bgeu { rs1, rs2, imm: imm_b }),
            _ => bad,
        },
        0x03 => match funct3 {
            0 => Ok(Instr::Lb { rd, rs1, imm: imm_i }),
            1 => Ok(Instr::Lh { rd, rs1, imm: imm_i }),
            2 => Ok(Instr::Lw { rd, rs1, imm: imm_i }),
            3 => Ok(Instr::Ld { rd, rs1, imm: imm_i }),
            4 => Ok(Instr::Lbu { rd, rs1, imm: imm_i }),
            5 => Ok(Instr::Lhu { rd, rs1, imm: imm_i }),
            6 => Ok(Instr::Lwu { rd, rs1, imm: imm_i }),
            _ => bad,
        },
        0x23 => match funct3 {
            0 => Ok(Instr::Sb { rs1, rs2, imm: imm_s }),
            1 => Ok(Instr::Sh { rs1, rs2, imm: imm_s }),
            2 => Ok(Instr::Sw { rs1, rs2, imm: imm_s }),
            3 => Ok(Instr::Sd { rs1, rs2, imm: imm_s }),
            _ => bad,
        },
        0x13 => match funct3 {
            0 => Ok(Instr::Addi { rd, rs1, imm: imm_i }),
            2 => Ok(Instr::Slti { rd, rs1, imm: imm_i }),
            3 => Ok(Instr::Sltiu { rd, rs1, imm: imm_i }),
            4 => Ok(Instr::Xori { rd, rs1, imm: imm_i }),
            6 => Ok(Instr::Ori { rd, rs1, imm: imm_i }),
            7 => Ok(Instr::Andi { rd, rs1, imm: imm_i }),
            1 => if funct6 == 0 { Ok(Instr::Slli { rd, rs1, shamt: shamt6 }) } else { bad },
            _ => if funct6 == 0 {
                Ok(Instr::Srli { rd, rs1, shamt: shamt6 })
            } else if funct6 == 0x10 {
                Ok(Instr::Srai { rd, rs1, shamt: shamt6 })
            } else {
                bad
            },
        },
        0x1b => match funct3 {
            0 => Ok(Instr::Addiw { rd, rs1, imm: imm_i }),
            1 => if funct7 == 0 { Ok(Instr::Slliw { rd, rs1, shamt: shamt5 }) } else { bad },
            5 => if funct7 == 0 {
                Ok(Instr::Srliw { rd, rs1, shamt: shamt5 })
            } else if funct7 == 0x20 {
                Ok(Instr::Sraiw { rd, rs1, shamt: shamt5 })
            } else {
                bad
            },
            _ => bad,
        },
        0x33 => if funct7 == 0 {
            match funct3 {
                0 => Ok(Instr::Add { rd, rs1, rs2 }),
                1 => Ok(Instr::Sll { rd, rs1, rs2 }),
                2 => Ok(Instr::Slt { rd, rs1, rs2 }),
                3 => Ok(Instr::Sltu { rd, rs1, rs2 }),
                4 => Ok(Instr::Xor { rd, rs1, rs2 }),
                5 => Ok(Instr::Srl { rd, rs1, rs2 }),
                6 => Ok(Instr::Or { rd, rs1, rs2 }),
                _ => Ok(Instr::And { rd, rs1, rs2 }),
            }
        } else if funct7 == 0x20 && funct3 == 0 {
            Ok(Instr::Sub { rd, rs1, rs2 })
        } else if funct7 == 0x20 && funct3 == 5 {
            Ok(Instr::Sra { rd, rs1, rs2 })
        } else {
            bad
        },
        0x3b => if funct7 == 0 && funct3 == 0 {
            Ok(Instr::Addw { rd, rs1, rs2 })
        } else if funct7 == 0 && funct3 == 1 {
            Ok(Instr::Sllw { rd, rs1, rs2 })
        } else if funct7 == 0 && funct3 == 5 {
            Ok(Instr::Srlw { rd, rs1, rs2 })
        } else if funct7 == 0x20 && funct3 == 0 {
            Ok(Instr::Subw { rd, rs1, rs2 })
        } else if funct7 == 0x20 && funct3 == 5 {
            Ok(Instr::Sraw { rd, rs1, rs2 })
        } else {
            bad
        },
        0x0f => if funct3 == 0 {
            Ok(Instr::Fence { pred: ((insn >> 24) & 0xf) as u8, succ: ((insn >> 20) & 0xf) as u8 })
        } else {
            bad
        },
        0x73 => if insn == 0x0000_0073 {
            Ok(Instr::Ecall)
        } else if insn == 0x0010_0073 {
            Ok(Instr::Ebreak)
        } else {
            bad
        },
        _ => bad,
    }
}


} // verus!
