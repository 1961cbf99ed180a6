//! The physical bus seam: the fault kinds every access may raise, and the [`Bus`] interface the
//! hart fetches, loads and stores through. Policy: range (containment) is checked before
//! alignment, every access of width 2/4/8 must be naturally aligned, and a faulting store writes
//! nothing.

use vstd::prelude::*;

pub mod mmap;

verus! {

/// Why a physical access failed.
#[derive(Debug, Clone, Copy, PartialEq, Eq)]
pub enum BusFault {
    /// The access is not naturally aligned for its width.
    Misaligned,
    /// No memory or device backs every byte of the access.
    Access,
}

/// The access widths, in bytes.
pub open spec fn valid_width(w: nat) -> bool {
    w == 1 || w == 2 || w == 4 || w == 8
}

/// A `u8` load result widened to the bus's `u64` view.
pub open spec fn res8(r: Result<u8, BusFault>) -> Result<u64, BusFault> {
    match r { Ok(v) => Ok(v as u64), Err(e) => Err(e) }
}

/// A `u16` load result widened to the bus's `u64` view.
pub open spec fn res16(r: Result<u16, BusFault>) -> Result<u64, BusFault> {
    match r { Ok(v) => Ok(v as u64), Err(e) => Err(e) }
}

/// A `u32` load result widened to the bus's `u64` view.
pub open spec fn res32(r: Result<u32, BusFault>) -> Result<u64, BusFault> {
    match r { Ok(v) => Ok(v as u64), Err(e) => Err(e) }
}

/// A physically addressed memory system. Each implementation states, as spec functions, what a
/// load returns in a given state, what a store reports, and how the state may change.
pub trait Bus: Sized {
    /// The value (zero-extended) a `width`-byte load at `addr` yields in this state.
    spec fn load_value(&self, addr: u64, width: nat) -> Result<u64, BusFault>;
    /// The relation between the state before a load and the state after it.
    spec fn load_post(&self, post: &Self, addr: u64, width: nat) -> bool;
    /// What a `width`-byte store of `value` (truncated to the width) at `addr` reports.
    spec fn store_result(&self, addr: u64, width: nat, value: u64) -> Result<(), BusFault>;
    /// The relation between the state before a store and the state after it.
    spec fn store_post(&self, post: &Self, addr: u64, width: nat, value: u64) -> bool;

    fn load8(&mut self, addr: u64) -> (r: Result<u8, BusFault>)
        ensures
            res8(r) == old(self).load_value(addr, 1),
            old(self).load_post(final(self), addr, 1),
    ;

    fn load16(&mut self, addr: u64) -> (r: Result<u16, BusFault>)
        ensures
            res16(r) == old(self).load_value(addr, 2),
            old(self).load_post(final(self), addr, 2),
    ;

    fn load32(&mut self, addr: u64) -> (r: Result<u32, BusFault>)
        ensures
            res32(r) == old(self).load_value(addr, 4),
            old(self).load_post(final(self), addr, 4),
    ;

    fn load64(&mut self, addr: u64) -> (r: Result<u64, BusFault>)
        ensures
            r == old(self).load_value(addr, 8),
            old(self).load_post(final(self), addr, 8),
    ;

    fn store8(&mut self, addr: u64, val: u8) -> (r: Result<(), BusFault>)
        ensures
            r == old(self).store_result(addr, 1, val as u64),
            old(self).store_post(final(self), addr, 1, val as u64),
    ;

    fn store16(&mut self, addr: u64, val: u16) -> (r: Result<(), BusFault>)
        ensures
            r == old(self).store_result(addr, 2, val as u64),
            old(self).store_post(final(self), addr, 2, val as u64),
    ;

    fn store32(&mut self, addr: u64, val: u32) -> (r: Result<(), BusFault>)
        ensures
            r == old(self).store_result(addr, 4, val as u64),
            old(self).store_post(final(self), addr, 4, val as u64),
    ;

    fn store64(&mut self, addr: u64, val: u64) -> (r: Result<(), BusFault>)
        ensures
            r == old(self).store_result(addr, 8, val),
            old(self).store_post(final(self), addr, 8, val),
    ;
}

} // verus!

verus! {

/// For a power-of-two width, the low-bit mask test is the alignment test.
pub proof fn lemma_align_mask(addr: u64, w: u64)
    requires valid_width(w as nat),
    ensures (addr & ((w - 1) as u64) == 0) <==> (addr as int) % (w as int) == 0,
{
    let m: u64 = (w - 1) as u64;
    assert(w == 1 && m == 0 ==> (addr & m == 0 && addr % w == 0)) by (bit_vector);
    assert(w == 2 && m == 1 ==> (addr & m == 0 <==> addr % w == 0)) by (bit_vector);
    assert(w == 4 && m == 3 ==> (addr & m == 0 <==> addr % w == 0)) by (bit_vector);
    assert(w == 8 && m == 7 ==> (addr & m == 0 <==> addr % w == 0)) by (bit_vector);
}

} // verus!
