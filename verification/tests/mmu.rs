use wasm_vm_core::bus::Bus;
use wasm_vm_core::hart::{Exception, Trap};
use wasm_vm_core::mmu::{translate, Access, TranslationCsrs};
use wasm_vm_core::pmp::{Pmp, Priv};
use wasm_vm_core::ram::Ram;

const BASE: u64 = 0x8000_0000;

/// A RAM with a root page table at `BASE` mapping the 1 GiB superpage at `BASE` with `flags`.
fn rig(flags: u64) -> (Ram, TranslationCsrs) {
    let mut ram = Ram::with_base(BASE, 8192).unwrap();
    let vpn2 = (BASE >> 30) & 0x1ff;
    ram.store64(BASE + vpn2 * 8, ((BASE >> 12) << 10) | flags).unwrap();
    let csr = TranslationCsrs { satp: (8u64 << 60) | (BASE >> 12), sum: false, mxr: false };
    (ram, csr)
}

fn open_pmp() -> Pmp {
    let mut p = Pmp::new();
    p.allow_all();
    p
}

#[test]
fn a_superpage_leaf_maps_the_address_through() {
    let (mut ram, csr) = rig(0xcf);
    let pmp = open_pmp();
    assert_eq!(translate(&csr, &pmp, &mut ram, BASE + 0x1234, Access::Load, Priv::S), Ok(BASE + 0x1234));
    assert_eq!(translate(&csr, &pmp, &mut ram, BASE + 0x0123_4567, Access::Store, Priv::S), Ok(BASE + 0x0123_4567));
}

#[test]
fn m_mode_and_bare_satp_are_the_identity() {
    let (mut ram, csr) = rig(0);
    let pmp = open_pmp();
    assert_eq!(translate(&csr, &pmp, &mut ram, 0x1234, Access::Load, Priv::M), Ok(0x1234));
    let bare = TranslationCsrs { satp: 0, ..csr };
    assert_eq!(translate(&bare, &pmp, &mut ram, 0x1234, Access::Fetch, Priv::S), Ok(0x1234));
}

#[test]
fn walk_refusals_carry_their_cause() {
    let pmp = open_pmp();
    let (mut ram, csr) = rig(0xcf);
    let va = 0x0000_8000_0000_0000u64;
    assert_eq!(
        translate(&csr, &pmp, &mut ram, va, Access::Load, Priv::S),
        Err(Trap { cause: Exception::LoadPageFault, tval: va }),
        "not canonical"
    );
    let (mut ram, csr) = rig(0);
    assert_eq!(
        translate(&csr, &pmp, &mut ram, BASE, Access::Fetch, Priv::S),
        Err(Trap { cause: Exception::InstrPageFault, tval: BASE }),
        "invalid PTE"
    );
    let (mut ram, csr) = rig(0xcf & !0x80);
    assert_eq!(
        translate(&csr, &pmp, &mut ram, BASE, Access::Store, Priv::S),
        Err(Trap { cause: Exception::StorePageFault, tval: BASE }),
        "store to a clean page"
    );
    let (mut ram, csr) = rig(0xcf);
    assert_eq!(
        translate(&csr, &Pmp::new(), &mut ram, BASE, Access::Load, Priv::S),
        Err(Trap { cause: Exception::LoadAccessFault, tval: BASE }),
        "PMP denies the PTE read"
    );
}
