//! Floating-point register file: 32 × 64-bit `f` registers with NaN-boxing of 32-bit values.
//!
//! A 32-bit value held in an f-register is stored as `{ all-ones upper bits, the value }`. A
//! single-precision operand whose upper 32 bits are not all-ones is not a valid boxed value and
//! reads as the canonical single-precision quiet NaN. `f0` is an ordinary register.

use vstd::prelude::*;

verus! {

/// The canonical single-precision quiet NaN (RISC-V).
pub const CANONICAL_NAN_F32: u32 = 0x7fc0_0000;

/// The single-precision value a 64-bit register pattern holds.
pub open spec fn unbox_f32(bits: u64) -> u32 {
    if bits >> 32 == 0xFFFF_FFFFu64 { bits as u32 } else { CANONICAL_NAN_F32 }
}

/// The 64-bit pattern that boxes a single-precision value.
pub open spec fn box_f32(bits: u32) -> u64 {
    0xFFFF_FFFF_0000_0000u64 | (bits as u64)
}

/// The 32 FLEN=64 floating-point registers.
#[derive(Clone, Copy, PartialEq, Eq)]
pub struct FRegs {
    f: [u64; 32],
}

impl FRegs {
    /// The raw register patterns, indexed by register number.
    pub closed spec fn view(&self) -> Seq<u64> {
        self.f@
    }

    /// All registers zero.
    pub fn new() -> (r: Self)
        ensures r@.len() == 32, forall|i: int| 0 <= i < 32 ==> r@[i] == 0,
    {
        FRegs { f: [0u64; 32] }
    }

    /// Raw 64-bit read (the stored bit pattern).
    pub fn read_raw(&self, r: u8) -> (v: u64)
        requires r < 32,
        ensures v == self@[r as int],
    {
        self.f[r as usize]
    }

    /// Raw 64-bit write (no boxing).
    pub fn write_raw(&mut self, r: u8, bits: u64)
        requires r < 32,
        ensures final(self)@ == old(self)@.update(r as int, bits),
    {
        self.f[r as usize] = bits;
    }

    /// Read a single-precision operand with NaN-box checking.
    pub fn read_f32(&self, r: u8) -> (v: u32)
        requires r < 32,
        ensures v == unbox_f32(self@[r as int]),
    {
        let bits = self.read_raw(r);
        if bits >> 32 == 0xFFFF_FFFF {
            bits as u32
        } else {
            CANONICAL_NAN_F32
        }
    }

    /// Write a single-precision result, NaN-boxing it.
    pub fn write_f32(&mut self, r: u8, bits: u32)
        requires r < 32,
        ensures final(self)@ == old(self)@.update(r as int, box_f32(bits)),
    {
        self.write_raw(r, 0xFFFF_FFFF_0000_0000 | bits as u64);
    }
}

impl Default for FRegs {
    fn default() -> (r: Self)
        ensures r@.len() == 32, forall|i: int| 0 <= i < 32 ==> r@[i] == 0,
    {
        FRegs::new()
    }
}

/// A boxed single-precision value reads back unchanged.
pub proof fn lemma_box_roundtrip(bits: u32)
    ensures unbox_f32(box_f32(bits)) == bits,
{
    let b: u64 = 0xFFFF_FFFF_0000_0000u64 | (bits as u64);
    assert(b >> 32 == 0xFFFF_FFFFu64 && b as u32 == bits) by (bit_vector)
        requires b == 0xFFFF_FFFF_0000_0000u64 | (bits as u64);
}

} // verus!
