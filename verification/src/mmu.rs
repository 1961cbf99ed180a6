//! Sv39 virtual-memory translation: a satp-rooted three-level page-table walk turning a 39-bit
//! virtual address into a physical address, enforcing every PTE permission bit and raising
//! precise page faults.
//!
//! A Bare satp or an M-mode (effective) access is the identity. Every PTE read is a physical
//! access checked by PMP: a denial during the walk is an access fault, not a page fault.
//! A/D policy (Svade): an access to a leaf with A=0, or a store to a leaf with D=0, page-faults;
//! A/D are never updated by hardware.

use vstd::prelude::*;
use crate::bus::Bus;
use crate::hart::{Exception, Trap};
use crate::pmp::{Pmp, PmpAccess, Priv, check_from};

verus! {

/// The access class being translated.
#[derive(Debug, Clone, Copy, PartialEq, Eq)]
pub enum Access {
    Fetch,
    Load,
    Store,
}

/// The CSR state translation reads: `satp` and the `mstatus` SUM/MXR modifiers.
#[derive(Debug, Clone, Copy, PartialEq, Eq)]
pub struct TranslationCsrs {
    pub satp: u64,
    pub sum: bool,
    pub mxr: bool,
}

/// The page-fault cause for an access class.
pub open spec fn page_fault_of(a: Access) -> Exception {
    match a {
        Access::Fetch => Exception::InstrPageFault,
        Access::Load => Exception::LoadPageFault,
        Access::Store => Exception::StorePageFault,
    }
}

/// The access-fault cause for an access class.
pub open spec fn access_fault_of(a: Access) -> Exception {
    match a {
        Access::Fetch => Exception::InstrAccessFault,
        Access::Load => Exception::LoadAccessFault,
        Access::Store => Exception::StoreAccessFault,
    }
}

impl Access {
    fn page_fault(self) -> (e: Exception)
        ensures e == page_fault_of(self),
    {
        match self {
            Access::Fetch => Exception::InstrPageFault,
            Access::Load => Exception::LoadPageFault,
            Access::Store => Exception::StorePageFault,
        }
    }

    fn access_fault(self) -> (e: Exception)
        ensures e == access_fault_of(self),
    {
        match self {
            Access::Fetch => Exception::InstrAccessFault,
            Access::Load => Exception::LoadAccessFault,
            Access::Store => Exception::StoreAccessFault,
        }
    }
}

pub const MODE_SV39: u64 = 8;
pub const PTE_V: u64 = 1;
pub const PTE_R: u64 = 2;
pub const PTE_W: u64 = 4;
pub const PTE_X: u64 = 8;
pub const PTE_U: u64 = 16;
pub const PTE_A: u64 = 64;
pub const PTE_D: u64 = 128;

/// Whether `va` is a canonical Sv39 address: bits 63..39 all equal bit 38.
pub open spec fn canonical(va: u64) -> bool {
    (((va as i64) << 25u64) >> 25u64) as u64 == va
}

/// Whether translation applies: satp selects Sv39 and the effective mode is not M.
pub open spec fn translates(satp: u64, eff: Priv) -> bool {
    satp >> 60u64 == MODE_SV39 && eff != Priv::M
}

/// Do the leaf PTE's permission bits allow `access` at privilege `eff`, given SUM and MXR?
pub open spec fn perm_ok_spec(csr: TranslationCsrs, pte: u64, access: Access, eff: Priv) -> bool {
    let user_page = pte & PTE_U != 0;
    if eff == Priv::U && !user_page {
        false
    } else if eff == Priv::S && user_page && (access == Access::Fetch || !csr.sum) {
        false
    } else {
        match access {
            Access::Fetch => pte & PTE_X != 0,
            Access::Load => pte & PTE_R != 0 || (csr.mxr && pte & PTE_X != 0),
            Access::Store => pte & PTE_W != 0,
        }
    }
}

fn perm_ok(csr: &TranslationCsrs, pte: u64, access: Access, eff: Priv) -> (r: bool)
    ensures r == perm_ok_spec(*csr, pte, access, eff),
{
    let user_page = pte & PTE_U != 0;
    if matches!(eff, Priv::U) && !user_page {
        return false;
    }
    if matches!(eff, Priv::S) && user_page && (matches!(access, Access::Fetch) || !csr.sum) {
        return false;
    }
    match access {
        Access::Fetch => pte & PTE_X != 0,
        Access::Load => pte & PTE_R != 0 || (csr.mxr && pte & PTE_X != 0),
        Access::Store => pte & PTE_W != 0,
    }
}

/// The root page table `satp` names.
pub open spec fn root_table(satp: u64) -> u64 {
    (satp & 0x0fff_ffff_ffff) << 12u64
}

/// The index `va` selects in a level-`level` page table.
pub open spec fn vpn_of(va: u64, level: u64) -> u64 {
    (va >> ((12 + level * 9) as u64)) & 0x1ff
}

/// The address of the PTE for `va` in the level-`level` table at `table`.
pub open spec fn pte_addr_of(table: u64, va: u64, level: u64) -> u64 {
    (table + vpn_of(va, level) * 8) as u64
}

/// Does PMP let the walk read the eight PTE bytes at `addr`?
pub open spec fn pte_read_ok(pmp: Pmp, addr: u64, eff: Priv) -> bool {
    check_from(pmp.cfg_view(), pmp.addr_view(), 0, addr, addr.wrapping_add(8), PmpAccess::Read, eff)
}

/// The physical page number of a PTE.
pub open spec fn pte_ppn(pte: u64) -> u64 {
    (pte >> 10u64) & 0x0fff_ffff_ffff
}

/// The page-number bits a level-`level` leaf passes through from `va` (a superpage's low bits).
pub open spec fn leaf_low(level: u64) -> u64 {
    if level == 0 { 0 } else if level == 1 { 0x1ff } else { 0x3_ffff }
}

/// The PTE is invalid, or writable without being readable.
pub open spec fn pte_malformed(pte: u64) -> bool {
    pte & PTE_V == 0 || (pte & PTE_R == 0 && pte & PTE_W != 0)
}

/// The PTE is a leaf (readable or executable).
pub open spec fn pte_leaf(pte: u64) -> bool {
    pte & (PTE_R | PTE_X) != 0
}

/// A valid non-leaf PTE at `level` points on to the next level: it has no A, D or U bit and is
/// not at the last level.
pub open spec fn walk_continues(pte: u64, level: u64) -> bool {
    !pte_malformed(pte) && !pte_leaf(pte) && pte & (PTE_A | PTE_D | PTE_U) == 0 && level > 0
}

/// What a leaf PTE found at `level` gives for `access` at `eff`: a page fault for a misaligned
/// superpage, a permission the leaf does not grant, or a clear A bit (or D bit on a store);
/// else the physical address, with the superpage's low page-number bits and the offset from `va`.
pub open spec fn leaf_result(csr: TranslationCsrs, pte: u64, va: u64, access: Access, eff: Priv, level: u64) -> Result<u64, Trap> {
    let pf = Err(Trap { cause: page_fault_of(access), tval: va });
    if level > 0 && pte_ppn(pte) & leaf_low(level) != 0 {
        pf
    } else if !perm_ok_spec(csr, pte, access, eff) {
        pf
    } else if pte & PTE_A == 0 || (access == Access::Store && pte & PTE_D == 0) {
        pf
    } else {
        Ok((((pte_ppn(pte) & !leaf_low(level)) | ((va >> 12u64) & leaf_low(level))) << 12u64) | (va & 0xfff))
    }
}

/// The outcome of the walk for `va` from the level-`level` table at `table`, where the PTE of
/// each level is read from the next bus state of `bs`: an access fault when PMP denies the read
/// or the bus faults; a page fault for a malformed PTE or a non-leaf PTE that cannot go on; the
/// leaf's result; else the walk of the next level.
pub open spec fn walk_result<B: Bus>(csr: TranslationCsrs, pmp: Pmp, va: u64, access: Access, eff: Priv, table: u64, level: u64, bs: Seq<B>) -> Result<u64, Trap>
    decreases level,
{
    let addr = pte_addr_of(table, va, level);
    let af = Err(Trap { cause: access_fault_of(access), tval: va });
    let pf = Err(Trap { cause: page_fault_of(access), tval: va });
    if !pte_read_ok(pmp, addr, eff) {
        af
    } else {
        match bs[0].load_value(addr, 8) {
            Err(_) => af,
            Ok(pte) => if pte_malformed(pte) {
                pf
            } else if pte_leaf(pte) {
                leaf_result(csr, pte, va, access, eff, level)
            } else if walk_continues(pte, level) {
                walk_result(csr, pmp, va, access, eff, pte_ppn(pte) << 12u64, (level - 1) as u64, bs.drop_first())
            } else {
                pf
            },
        }
    }
}

/// `bs` are the bus states of the walk from the level-`level` table at `table`: one PTE read per
/// level the walk reaches, each read taking the bus from one state to the next.
pub open spec fn walk_trace<B: Bus>(pmp: Pmp, va: u64, eff: Priv, table: u64, level: u64, bs: Seq<B>) -> bool
    decreases level,
{
    let addr = pte_addr_of(table, va, level);
    &&& bs.len() >= 1
    &&& if !pte_read_ok(pmp, addr, eff) {
        bs.len() == 1
    } else {
        &&& bs.len() >= 2
        &&& bs[0].load_post(&bs[1], addr, 8)
        &&& match bs[0].load_value(addr, 8) {
            Ok(pte) => if walk_continues(pte, level) {
                walk_trace(pmp, va, eff, pte_ppn(pte) << 12u64, (level - 1) as u64, bs.drop_first())
            } else {
                bs.len() == 2
            },
            Err(_) => bs.len() == 2,
        }
    }
}

/// The walk from the level-`level` table at `table`.
fn walk<B: Bus>(csr: &TranslationCsrs, pmp: &Pmp, bus: &mut B, va: u64, access: Access, eff: Priv, table: u64, level: u64)
    -> (r: Result<u64, Trap>)
    requires level <= 2, table <= 0x00ff_ffff_ffff_f000u64,
    ensures
        exists|bs: Seq<B>| #[trigger] walk_trace(*pmp, va, eff, table, level, bs)
            && bs[0] == *old(bus) && bs.last() == *final(bus)
            && r == walk_result(*csr, *pmp, va, access, eff, table, level, bs),
        r matches Err(t) ==> t.tval == va && (t.cause == page_fault_of(access) || t.cause == access_fault_of(access)),
        r matches Ok(pa) ==> pa & 0xfff == va & 0xfff,
    decreases level,
{
    let ghost b0 = *bus;
    let vpn = (va >> (12 + level * 9)) & 0x1ff;
    assert(vpn <= 0x1ff) by (bit_vector) requires vpn == (va >> (12 + level * 9)) & 0x1ff;
    let pte_addr = table + vpn * 8;
    assert(pte_addr == pte_addr_of(table, va, level));
    if !pmp.check(pte_addr, 8, PmpAccess::Read, eff) {
        proof {
            let bs = seq![b0];
            assert(walk_trace(*pmp, va, eff, table, level, bs));
        }
        return Err(Trap { cause: access.access_fault(), tval: va });
    }
    let lr = bus.load64(pte_addr);
    let ghost b1 = *bus;
    let ghost bs1 = seq![b0, b1];
    let pte = match lr {
        Ok(p) => p,
        Err(_) => {
            proof { assert(walk_trace(*pmp, va, eff, table, level, bs1)); }
            return Err(Trap { cause: access.access_fault(), tval: va });
        },
    };
    if pte & PTE_V == 0 || (pte & PTE_R == 0 && pte & PTE_W != 0) {
        proof { assert(walk_trace(*pmp, va, eff, table, level, bs1)); }
        return Err(Trap { cause: access.page_fault(), tval: va });
    }
    let ppn = (pte >> 10u64) & 0x0fff_ffff_ffff;
    if pte & (PTE_R | PTE_X) != 0 {
        proof { assert(walk_trace(*pmp, va, eff, table, level, bs1)); }
        let low: u64 = if level == 0 { 0 } else if level == 1 { 0x1ff } else { 0x3_ffff };
        if level > 0 && ppn & low != 0 {
            return Err(Trap { cause: access.page_fault(), tval: va });
        }
        if !perm_ok(csr, pte, access, eff) {
            return Err(Trap { cause: access.page_fault(), tval: va });
        }
        if pte & PTE_A == 0 || (matches!(access, Access::Store) && pte & PTE_D == 0) {
            return Err(Trap { cause: access.page_fault(), tval: va });
        }
        let phys_ppn = (ppn & !low) | ((va >> 12u64) & low);
        let pa = (phys_ppn << 12u64) | (va & 0xfff);
        assert(((phys_ppn << 12u64) | (va & 0xfff)) & 0xfff == va & 0xfff) by (bit_vector);
        return Ok(pa);
    }
    if pte & (PTE_A | PTE_D | PTE_U) != 0 || level == 0 {
        proof { assert(walk_trace(*pmp, va, eff, table, level, bs1)); }
        return Err(Trap { cause: access.page_fault(), tval: va });
    }
    assert(((pte >> 10u64) & 0x0fff_ffff_ffff) << 12u64 <= 0x00ff_ffff_ffff_f000u64) by (bit_vector);
    let next = ppn << 12u64;
    let r = walk(csr, pmp, bus, va, access, eff, next, level - 1);
    proof {
        assert(walk_continues(pte, level));
        let rest = choose|bs2: Seq<B>| #[trigger] walk_trace(*pmp, va, eff, next, (level - 1) as u64, bs2)
            && bs2[0] == b1 && bs2.last() == *bus
            && r == walk_result(*csr, *pmp, va, access, eff, next, (level - 1) as u64, bs2);
        let bs = seq![b0] + rest;
        assert(bs.drop_first() =~= rest);
        assert(bs[1] == b1);
        assert(walk_trace(*pmp, va, eff, table, level, bs));
        assert(r == walk_result(*csr, *pmp, va, access, eff, table, level, bs));
    }
    r
}

/// Translate `va` for `access` at effective privilege `eff`. With no translation in force the
/// address is the identity; a non-canonical address page-faults; otherwise the Sv39 walk from
/// the root table in `satp` decides ([`walk_result`]), its PTE reads going through the bus.
pub fn translate<B: Bus>(csr: &TranslationCsrs, pmp: &Pmp, bus: &mut B, va: u64, access: Access, eff: Priv)
    -> (r: Result<u64, Trap>)
    ensures
        !translates(csr.satp, eff) ==> r == Ok::<u64, Trap>(va) && *final(bus) == *old(bus),
        translates(csr.satp, eff) && !canonical(va) ==> r == Err::<u64, Trap>(Trap { cause: page_fault_of(access), tval: va })
            && *final(bus) == *old(bus),
        translates(csr.satp, eff) && canonical(va) ==> exists|bs: Seq<B>|
            #[trigger] walk_trace(*pmp, va, eff, root_table(csr.satp), 2, bs)
            && bs[0] == *old(bus) && bs.last() == *final(bus)
            && r == walk_result(*csr, *pmp, va, access, eff, root_table(csr.satp), 2, bs),
        r matches Err(t) ==> t.tval == va && (t.cause == page_fault_of(access) || t.cause == access_fault_of(access)),
        r matches Ok(pa) ==> translates(csr.satp, eff) ==> pa & 0xfff == va & 0xfff,
{
    let satp = csr.satp;
    if satp >> 60u64 != MODE_SV39 || matches!(eff, Priv::M) {
        return Ok(va);
    }
    let sext = (((va as i64) << 25u64) >> 25u64) as u64;
    if sext != va {
        return Err(Trap { cause: access.page_fault(), tval: va });
    }
    let table: u64 = (satp & 0x0fff_ffff_ffff) << 12u64;
    assert(((satp & 0x0fff_ffff_ffff) << 12u64) <= 0x00ff_ffff_ffff_f000u64) by (bit_vector);
    let r = walk(csr, pmp, bus, va, access, eff, table, 2);
    proof {
        assert(table == root_table(csr.satp));
        let bs = choose|bs: Seq<B>| #[trigger] walk_trace(*pmp, va, eff, table, 2, bs)
            && bs[0] == *old(bus) && bs.last() == *bus
            && r == walk_result(*csr, *pmp, va, access, eff, table, 2, bs);
        assert(walk_trace(*pmp, va, eff, root_table(csr.satp), 2, bs));
    }
    r
}

/// The permission rules of a leaf, stated on its bits: a U-mode access to a page without the U
/// bit, an S-mode fetch from a U page, and an S-mode load or store of a U page without SUM all
/// page-fault; a fetch needs X, a store needs W, a load needs R (or X with MXR); any access needs
/// A, and a store needs D. Whatever the other bits, each of these ends the translation in a page
/// fault carrying `va`.
pub proof fn lemma_leaf_permissions(csr: TranslationCsrs, pte: u64, va: u64, access: Access, eff: Priv, level: u64)
    ensures ({
        let pf = Err::<u64, Trap>(Trap { cause: page_fault_of(access), tval: va });
        &&& eff == Priv::U && pte & 16u64 == 0 ==> leaf_result(csr, pte, va, access, eff, level) == pf
        &&& eff == Priv::S && pte & 16u64 != 0 && access == Access::Fetch ==> leaf_result(csr, pte, va, access, eff, level) == pf
        &&& eff == Priv::S && pte & 16u64 != 0 && !csr.sum ==> leaf_result(csr, pte, va, access, eff, level) == pf
        &&& access == Access::Fetch && pte & 8u64 == 0 ==> leaf_result(csr, pte, va, access, eff, level) == pf
        &&& access == Access::Store && pte & 4u64 == 0 ==> leaf_result(csr, pte, va, access, eff, level) == pf
        &&& access == Access::Load && pte & 2u64 == 0 && !(csr.mxr && pte & 8u64 != 0) ==> leaf_result(csr, pte, va, access, eff, level) == pf
        &&& pte & 64u64 == 0 ==> leaf_result(csr, pte, va, access, eff, level) == pf
        &&& access == Access::Store && pte & 128u64 == 0 ==> leaf_result(csr, pte, va, access, eff, level) == pf
    }),
{
}

/// A U-mode access through a leaf without the U bit page-faults, whatever the leaf's R/W/X bits:
/// the translation of such an access never yields an address.
pub proof fn lemma_user_mode_needs_user_page(csr: TranslationCsrs, pte: u64, va: u64, access: Access, level: u64)
    requires pte & 16u64 == 0,
    ensures
        !perm_ok_spec(csr, pte, access, Priv::U),
        leaf_result(csr, pte, va, access, Priv::U, level) == Err::<u64, Trap>(Trap { cause: page_fault_of(access), tval: va }),
{
}

} // verus!
