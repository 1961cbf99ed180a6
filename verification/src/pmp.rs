//! Physical Memory Protection: entries with OFF/TOR/NA4/NAPOT matching, R/W/X permissions and
//! the L lock bit, checked on physical accesses.
//!
//! Matching rule: the lowest-numbered entry that matches any byte of the access wins. If it
//! matches all bytes, its L/R/W/X bits decide; if only some (a straddle), the access fails. With
//! no match, an M-mode access succeeds and an S/U access fails. An unlocked entry never
//! restricts M-mode; a locked entry applies to M too, and its cfg and addr cannot change.

use vstd::prelude::*;
use crate::ram::byte_of;

verus! {

/// Privilege modes.
#[derive(Debug, Clone, Copy, PartialEq, Eq)]
pub enum Priv {
    U,
    S,
    M,
}

/// The kind of access being checked, selecting which permission bit governs it.
#[derive(Debug, Clone, Copy, PartialEq, Eq)]
pub enum PmpAccess {
    Read,
    Write,
    Exec,
}

pub const CFG_R: u8 = 1;
pub const CFG_W: u8 = 2;
pub const CFG_X: u8 = 4;
pub const CFG_A: u8 = 0x18;
pub const CFG_L: u8 = 0x80;
pub const A_OFF: u8 = 0;
pub const A_TOR: u8 = 1;
pub const A_NA4: u8 = 2;
pub const A_NAPOT: u8 = 3;
/// Software-legal cfg bits: R/W/X/A/L (bits 5 and 6 are reserved and read 0).
pub const CFG_WMASK: u8 = 0x9f;
/// pmpaddr holds physical address[55:2]: 54 bits.
pub const ADDR_MASK: u64 = 0x003f_ffff_ffff_ffff;
/// Number of PMP entries.
pub const NUM_ENTRIES: usize = 64;

/// The PMP unit. `cfg[i]` is entry i's configuration byte; `addr[i]` its pmpaddr value.
#[derive(Debug, PartialEq, Eq)]
pub struct Pmp {
    cfg: [u8; 64],
    addr: [u64; 64],
}

/// The legalized form of a software-written cfg byte: reserved bits cleared, and the reserved
/// R=0/W=1 combination turned into R=0/W=0.
pub open spec fn legalize(b: u8) -> u8 {
    let c = b & CFG_WMASK;
    if c & CFG_W != 0 && c & CFG_R == 0 { c & !CFG_W } else { c }
}

/// The NAPOT region of a pmpaddr value: `t` trailing ones select a naturally aligned region of
/// 2^(t+3) bytes.
pub open spec fn napot_region(x: u64) -> (int, int) {
    let t = vstd::std_specs::bits::u64_trailing_zeros(!x) as u64;
    let base = (x & !(((1u64 << ((t + 1) as u64)) - 1) as u64)) << 2u64;
    (base as int, base + (1u64 << ((t + 3) as u64)))
}

/// The byte range `[lo, hi)` entry `i` covers, or `None` when it is OFF.
pub open spec fn region_spec(cfg: Seq<u8>, addr: Seq<u64>, i: int) -> Option<(int, int)> {
    let a = (cfg[i] & CFG_A) >> 3u8;
    if a == A_OFF {
        None
    } else if a == A_TOR {
        Some((if i == 0 { 0 } else { addr[i - 1] * 4 }, addr[i] * 4))
    } else if a == A_NA4 {
        Some((addr[i] * 4, addr[i] * 4 + 4))
    } else {
        Some(napot_region(addr[i]))
    }
}

/// Whether the permission bit for `access` is set in `c`.
pub open spec fn perm_bit(c: u8, access: PmpAccess) -> bool {
    match access {
        PmpAccess::Read => c & CFG_R != 0,
        PmpAccess::Write => c & CFG_W != 0,
        PmpAccess::Exec => c & CFG_X != 0,
    }
}

/// The outcome of checking `[addr, end)` against entries `i..`.
pub open spec fn check_from(cfg: Seq<u8>, addr_regs: Seq<u64>, i: int, addr: u64, end: u64, access: PmpAccess, mode: Priv) -> bool
    decreases 64 - i,
{
    if i >= 64 || i < 0 {
        matches!(mode, Priv::M)
    } else {
        match region_spec(cfg, addr_regs, i) {
            None => check_from(cfg, addr_regs, i + 1, addr, end, access, mode),
            Some((lo, hi)) => if addr < hi && lo < end {
                if addr < lo || end > hi {
                    false
                } else if matches!(mode, Priv::M) && cfg[i] & CFG_L == 0 {
                    true
                } else {
                    perm_bit(cfg[i], access)
                }
            } else {
                check_from(cfg, addr_regs, i + 1, addr, end, access, mode)
            },
        }
    }
}

impl Clone for Pmp {
    fn clone(&self) -> (r: Self)
        ensures r.cfg_view() == self.cfg_view(), r.addr_view() == self.addr_view(),
    {
        proof { use_type_invariant(self); }
        Pmp { cfg: self.cfg, addr: self.addr }
    }
}

impl Default for Pmp {
    fn default() -> (r: Self)
        ensures
            r.cfg_view() == Seq::new(64, |i: int| 0u8),
            r.addr_view() == Seq::new(64, |i: int| 0u64),
    {
        Pmp::new()
    }
}

impl Pmp {
    /// The configuration bytes, by entry.
    pub closed spec fn cfg_view(&self) -> Seq<u8> {
        self.cfg@
    }

    /// The pmpaddr values, by entry.
    pub closed spec fn addr_view(&self) -> Seq<u64> {
        self.addr@
    }

    #[verifier::type_invariant]
    closed spec fn wf(&self) -> bool {
        forall|i: int| 0 <= i < 64 ==> #[trigger] self.addr@[i] <= ADDR_MASK
    }


    /// Every entry OFF and unlocked, every address zero.
    pub fn new() -> (r: Self)
        ensures
            r.cfg_view() == Seq::new(64, |i: int| 0u8),
            r.addr_view() == Seq::new(64, |i: int| 0u64),
    {
        let r = Pmp { cfg: [0u8; 64], addr: [0u64; 64] };
        assert(r.cfg_view() =~= Seq::new(64, |i: int| 0u8));
        assert(r.addr_view() =~= Seq::new(64, |i: int| 0u64));
        r
    }

    /// True if any entry is armed (A != OFF).
    pub fn any_armed(&self) -> (r: bool)
        ensures r == exists|i: int| 0 <= i < 64 && #[trigger] self.cfg_view()[i] & CFG_A != 0,
    {
        let mut i: usize = 0;
        while i < 64
            invariant
                i <= 64,
                self.cfg@.len() == 64,
                forall|j: int| 0 <= j < i ==> #[trigger] self.cfg@[j] & CFG_A == 0,
            decreases 64 - i,
        {
            if self.cfg[i] & CFG_A != 0 {
                assert(self.cfg_view()[i as int] & CFG_A != 0);
                return true;
            }
            i += 1;
        }
        false
    }

    /// Read an even pmpcfg CSR: bank `2b` holds entries `[8b, 8b + 8)`, eight cfg bytes packed
    /// little-endian.
    pub fn read_cfg(&self, bank: usize) -> (v: u64)
        requires bank * 4 + 8 <= 64,
        ensures
            self.cfg_view().len() == 64, self.addr_view().len() == 64,
            forall|j: int| 0 <= j < 64 ==> #[trigger] self.addr_view()[j] <= ADDR_MASK,
            v == crate::ram::le_value(self.cfg_view(), bank * 4, 8),
    {
        proof { use_type_invariant(self); }
        let b = bank * 4;
        (self.cfg[b] as u64) | ((self.cfg[b + 1] as u64) << 8u64) | ((self.cfg[b + 2] as u64) << 16u64)
            | ((self.cfg[b + 3] as u64) << 24u64) | ((self.cfg[b + 4] as u64) << 32u64)
            | ((self.cfg[b + 5] as u64) << 40u64) | ((self.cfg[b + 6] as u64) << 48u64)
            | ((self.cfg[b + 7] as u64) << 56u64)
    }

    /// Write a pmpcfg bank. Each byte is legalized and skipped if its entry is locked.
    pub fn write_cfg(&mut self, bank: usize, v: u64)
        requires bank * 4 + 8 <= 64,
        ensures
            old(self).cfg_view().len() == 64, old(self).addr_view().len() == 64,
            final(self).cfg_view().len() == 64, final(self).addr_view().len() == 64,
            forall|j: int| 0 <= j < 64 ==> #[trigger] final(self).addr_view()[j] <= ADDR_MASK,
            final(self).addr_view() == old(self).addr_view(),
            final(self).cfg_view().len() == 64,
            forall|i: int| 0 <= i < 64 ==> #[trigger] final(self).cfg_view()[i] == (
                if bank * 4 <= i < bank * 4 + 8 && old(self).cfg_view()[i] & CFG_L == 0 {
                    legalize(byte_of(v, i - bank * 4))
                } else {
                    old(self).cfg_view()[i]
                }),
    {
        proof { use_type_invariant(&*self); }
        let base = bank * 4;
        let mut k: usize = 0;
        while k < 8
            invariant
                k <= 8, base == bank * 4, base + 8 <= 64,
                self.addr@ == old(self).addr@,
                forall|j: int| 0 <= j < 64 ==> #[trigger] self.addr@[j] <= ADDR_MASK,
                self.cfg@.len() == 64,
                forall|i: int| 0 <= i < 64 ==> #[trigger] self.cfg@[i] == (
                    if base <= i < base + k && old(self).cfg@[i] & CFG_L == 0 {
                        legalize(byte_of(v, i - base))
                    } else {
                        old(self).cfg@[i]
                    }),
            decreases 8 - k,
        {
            let i = base + k;
            if self.cfg[i] & CFG_L == 0 {
                let shift: u64 = (k as u64) * 8;
                let mut c = #[verifier::truncate] (((v >> shift) & 0xff) as u8) & CFG_WMASK;
                if c & CFG_W != 0 && c & CFG_R == 0 {
                    c = c & !CFG_W;
                }
                proof {
                    assert(byte_of(v, k as int) == ((v >> shift) & 0xff) as u8);
                }
                self.cfg[i] = c;
            }
            k += 1;
        }
    }

    /// Read `pmpaddr[i]` (address[55:2]).
    pub fn read_addr(&self, i: usize) -> (v: u64)
        requires i < 64,
        ensures
            self.cfg_view().len() == 64, self.addr_view().len() == 64,
            forall|j: int| 0 <= j < 64 ==> #[trigger] self.addr_view()[j] <= ADDR_MASK,
            v == self.addr_view()[i as int],
    {
        proof { use_type_invariant(self); }
        let cur = self.addr[i];
        assert(cur <= ADDR_MASK ==> cur & ADDR_MASK == cur) by (bit_vector);
        cur & ADDR_MASK
    }

    /// Write `pmpaddr[i]`, honoring locks: ignored if entry i is locked, or if entry i + 1 is a
    /// locked TOR entry (whose base is `pmpaddr[i]`).
    pub fn write_addr(&mut self, i: usize, v: u64)
        requires i < 64,
        ensures
            old(self).cfg_view().len() == 64, old(self).addr_view().len() == 64,
            final(self).cfg_view().len() == 64, final(self).addr_view().len() == 64,
            forall|j: int| 0 <= j < 64 ==> #[trigger] final(self).addr_view()[j] <= ADDR_MASK,
            final(self).cfg_view() == old(self).cfg_view(),
            final(self).addr_view() == (
                if old(self).cfg_view()[i as int] & CFG_L != 0
                    || (i + 1 < 64 && old(self).cfg_view()[i + 1] & CFG_L != 0
                        && (old(self).cfg_view()[i + 1] & CFG_A) >> 3u8 == A_TOR) {
                    old(self).addr_view()
                } else {
                    old(self).addr_view().update(i as int, v & ADDR_MASK)
                }),
    {
        proof { use_type_invariant(&*self); }
        if self.cfg[i] & CFG_L != 0 {
            return;
        }
        if i + 1 < NUM_ENTRIES {
            let hi = self.cfg[i + 1];
            if hi & CFG_L != 0 && (hi & CFG_A) >> 3u8 == A_TOR {
                return;
            }
        }
        let m = v & ADDR_MASK;
        assert(m <= ADDR_MASK) by (bit_vector) requires m == v & ADDR_MASK;
        self.addr[i] = m;
    }

    /// The byte range `[lo, hi)` entry `i` covers, or `None` if it is OFF.
    fn region(&self, i: usize) -> (r: Option<(u64, u64)>)
        requires i < 64,
        ensures
            match region_spec(self.cfg_view(), self.addr_view(), i as int) {
                None => r is None,
                Some((lo, hi)) => r matches Some((l, h)) && l == lo && h == hi,
            },
    {
        proof { use_type_invariant(self); }
        let a = (self.cfg[i] & CFG_A) >> 3u8;
        if a == A_OFF {
            None
        } else if a == A_TOR {
            let x = self.addr[i];
            assert(x <= ADDR_MASK ==> x << 2u64 == x * 4) by (bit_vector);
            let lo = if i == 0 {
                0
            } else {
                let p = self.addr[i - 1];
                assert(p <= ADDR_MASK ==> p << 2u64 == p * 4) by (bit_vector);
                p << 2u64
            };
            Some((lo, x << 2u64))
        } else if a == A_NA4 {
            let x = self.addr[i];
            assert(x <= ADDR_MASK ==> x << 2u64 == x * 4) by (bit_vector);
            let lo = x << 2u64;
            Some((lo, lo + 4))
        } else {
            let x = self.addr[i];
            let t = (!x).trailing_zeros() as u64;
            proof {
                let nx: u64 = !x;
                vstd::std_specs::bits::axiom_u64_trailing_zeros(nx);
                assert(x <= ADDR_MASK ==> (nx >> 54u64) & 1u64 == 1u64) by (bit_vector) requires nx == !x;
                if t > 54 {
                    assert((nx >> 54u64) & 1u64 == 0u64);
                }
                assert(t <= 54 ==> (1u64 << ((t + 3) as u64)) <= 0x0200_0000_0000_0000u64 && (1u64 << ((t + 1) as u64)) >= 2u64) by (bit_vector);
            }
            let mask = (1u64 << (t + 1)) - 1;
            let base = (x & !mask) << 2u64;
            let size = 1u64 << (t + 3);
            assert(x <= ADDR_MASK ==> ((x & !mask) << 2u64) <= 0x00ff_ffff_ffff_fffcu64) by (bit_vector);
            Some((base, base + size))
        }
    }

    /// Is an access of `len` bytes at `addr` by `mode` permitted for `access`?
    pub fn check(&self, addr: u64, len: u64, access: PmpAccess, mode: Priv) -> (r: bool)
        ensures r == check_from(self.cfg_view(), self.addr_view(), 0, addr, addr.wrapping_add(len), access, mode),
    {
        let end = addr.wrapping_add(len);
        let mut i: usize = 0;
        while i < 64
            invariant
                i <= 64,
                self.cfg@.len() == 64,
                end == addr.wrapping_add(len),
                check_from(self.cfg_view(), self.addr_view(), 0, addr, end, access, mode)
                    == check_from(self.cfg_view(), self.addr_view(), i as int, addr, end, access, mode),
            decreases 64 - i,
        {
            let reg = self.region(i);
            proof {
                let c = check_from(self.cfg_view(), self.addr_view(), i as int, addr, end, access, mode);
                assert(c == match region_spec(self.cfg_view(), self.addr_view(), i as int) {
                    None => check_from(self.cfg_view(), self.addr_view(), i + 1, addr, end, access, mode),
                    Some((lo, hi)) => if addr < hi && lo < end {
                        if addr < lo || end > hi {
                            false
                        } else if mode == Priv::M && self.cfg_view()[i as int] & CFG_L == 0 {
                            true
                        } else {
                            perm_bit(self.cfg_view()[i as int], access)
                        }
                    } else {
                        check_from(self.cfg_view(), self.addr_view(), i + 1, addr, end, access, mode)
                    },
                });
            }
            match reg {
                None => {}
                Some((lo, hi)) => {
                    if addr < hi && lo < end {
                        if addr < lo || end > hi {
                            return false;
                        }
                        let cfg = self.cfg[i];
                        if matches!(mode, Priv::M) && cfg & CFG_L == 0 {
                            return true;
                        }
                        return match access {
                            PmpAccess::Read => cfg & CFG_R != 0,
                            PmpAccess::Write => cfg & CFG_W != 0,
                            PmpAccess::Exec => cfg & CFG_X != 0,
                        };
                    }
                }
            }
            i += 1;
        }
        matches!(mode, Priv::M)
    }

    /// Open entry 0 as an all-address NAPOT region granting R/W/X to every mode.
    pub fn allow_all(&mut self)
        ensures
            old(self).cfg_view().len() == 64, old(self).addr_view().len() == 64,
            final(self).cfg_view().len() == 64, final(self).addr_view().len() == 64,
            forall|j: int| 0 <= j < 64 ==> #[trigger] final(self).addr_view()[j] <= ADDR_MASK,
            final(self).cfg_view() == old(self).cfg_view().update(0, (CFG_R | CFG_W | CFG_X | (A_NAPOT << 3u8)) as u8),
            final(self).addr_view() == old(self).addr_view().update(0, ADDR_MASK),
    {
        proof { use_type_invariant(&*self); }
        self.cfg[0] = CFG_R | CFG_W | CFG_X | (A_NAPOT << 3u8);
        self.addr[0] = ADDR_MASK;
    }
}

/// Entry `k` of `cfg`/`addr` covers no byte of `[addr, end)`.
pub open spec fn misses(cfg: Seq<u8>, addr_regs: Seq<u64>, k: int, addr: u64, end: u64) -> bool {
    match region_spec(cfg, addr_regs, k) {
        None => true,
        Some((lo, hi)) => !(addr < hi && lo < end),
    }
}

/// The first entry that covers any byte of an access decides it: when entry `j` covers all of
/// `[addr, end)`, no earlier entry covers any of it, and the entry binds the mode (S or U, or M
/// with the entry locked), the access is allowed exactly when the entry's bit for it is set:
/// R (bit 0) for a read, W (bit 1) for a write, X (bit 2) for an execute, whatever the others.
pub proof fn lemma_first_match_decides(cfg: Seq<u8>, addr_regs: Seq<u64>, j: int, addr: u64, end: u64, access: PmpAccess, mode: Priv)
    requires
        0 <= j < 64,
        region_spec(cfg, addr_regs, j) matches Some((lo, hi)) && lo <= addr && addr < end && end <= hi,
        forall|k: int| 0 <= k < j ==> #[trigger] misses(cfg, addr_regs, k, addr, end),
        mode != Priv::M || cfg[j] & 0x80u8 != 0,
    ensures
        check_from(cfg, addr_regs, 0, addr, end, access, mode) == match access {
            PmpAccess::Read => cfg[j] & 1u8 != 0,
            PmpAccess::Write => cfg[j] & 2u8 != 0,
            PmpAccess::Exec => cfg[j] & 4u8 != 0,
        },
{
    lemma_first_match_from(cfg, addr_regs, 0, j, addr, end, access, mode);
}

proof fn lemma_first_match_from(cfg: Seq<u8>, addr_regs: Seq<u64>, i: int, j: int, addr: u64, end: u64, access: PmpAccess, mode: Priv)
    requires
        0 <= i <= j < 64,
        region_spec(cfg, addr_regs, j) matches Some((lo, hi)) && lo <= addr && addr < end && end <= hi,
        forall|k: int| 0 <= k < j ==> #[trigger] misses(cfg, addr_regs, k, addr, end),
        mode != Priv::M || cfg[j] & 0x80u8 != 0,
    ensures
        check_from(cfg, addr_regs, i, addr, end, access, mode) == match access {
            PmpAccess::Read => cfg[j] & 1u8 != 0,
            PmpAccess::Write => cfg[j] & 2u8 != 0,
            PmpAccess::Exec => cfg[j] & 4u8 != 0,
        },
    decreases j - i,
{
    if i < j {
        assert(misses(cfg, addr_regs, i, addr, end));
        lemma_first_match_from(cfg, addr_regs, i + 1, j, addr, end, access, mode);
    }
}

/// The law for a PMP unit: its [`Pmp::check`] of an access inside the first entry that covers it
/// follows that entry's permission bit.
pub proof fn lemma_check_first_match(p: &Pmp, j: int, addr: u64, len: u64, access: PmpAccess, mode: Priv)
    requires
        0 <= j < 64,
        addr + len <= u64::MAX,
        region_spec(p.cfg_view(), p.addr_view(), j) matches Some((lo, hi)) && lo <= addr && 0 < len && addr + len <= hi,
        forall|k: int| 0 <= k < j ==> #[trigger] misses(p.cfg_view(), p.addr_view(), k, addr, (addr + len) as u64),
        mode != Priv::M || p.cfg_view()[j] & 0x80u8 != 0,
    ensures
        check_from(p.cfg_view(), p.addr_view(), 0, addr, addr.wrapping_add(len), access, mode) == match access {
            PmpAccess::Read => p.cfg_view()[j] & 1u8 != 0,
            PmpAccess::Write => p.cfg_view()[j] & 2u8 != 0,
            PmpAccess::Exec => p.cfg_view()[j] & 4u8 != 0,
        },
{
    assert(addr.wrapping_add(len) == (addr + len) as u64);
    lemma_first_match_decides(p.cfg_view(), p.addr_view(), j, addr, (addr + len) as u64, access, mode);
}

} // verus!
