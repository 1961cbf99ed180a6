//! Integer register file and PC.
//!
//! `x0` is hardwired zero: a write to it is discarded. The invariant lives in one place, the
//! private register array's type invariant, which [`XRegs::write`] is the only writer of.

use vstd::prelude::*;
use vstd::string::StringExecFns;
use crate::text::{digit_char, digit_str, hex_fixed, push_hex_fixed};

verus! {

/// ABI register names per the RISC-V psABI, indexed by register number.
pub const ABI_NAMES: [&'static str; 32] = [
    "zero", "ra", "sp", "gp", "tp", "t0", "t1", "t2", "s0", "s1", "a0", "a1", "a2", "a3", "a4",
    "a5", "a6", "a7", "s2", "s3", "s4", "s5", "s6", "s7", "s8", "s9", "s10", "s11", "t3", "t4",
    "t5", "t6",
];

/// The 32 general-purpose registers; `x0` reads zero on every path.
#[derive(Clone, Copy)]
pub struct Gprs {
    regs: [u64; 32],
}

impl Gprs {
    /// The register values, indexed by register number; `x0` is zero by construction.
    pub closed spec fn view(&self) -> Seq<u64> {
        Seq::new(32, |i: int| if i == 0 { 0u64 } else { self.regs@[i] })
    }

    #[verifier::type_invariant]
    closed spec fn wf(&self) -> bool {
        self.regs@[0] == 0
    }

    /// Every register file has 32 registers and `x0` is zero.
    pub proof fn lemma_shape(&self)
        ensures self@.len() == 32, self@[0] == 0,
    {
    }
}

/// The 31 writable RV64 integer registers plus the PC.
#[derive(Clone, Copy)]
pub struct XRegs {
    /// The general-purpose registers.
    pub gprs: Gprs,
    /// The program counter.
    pub pc: u64,
}

impl XRegs {
    /// The register values, indexed by register number.
    pub open spec fn view(&self) -> Seq<u64> {
        self.gprs@
    }

    /// `x0` is zero and there are 32 registers, in every register file.
    pub proof fn lemma_wf(&self)
        ensures self@.len() == 32, self@[0] == 0,
    {
        self.gprs.lemma_shape();
    }

    /// All registers and the PC zero.
    pub fn new() -> (r: Self)
        ensures forall|i: int| 0 <= i < 32 ==> r@[i] == 0, r@.len() == 32, r.pc == 0,
    {
        let r = XRegs { gprs: Gprs { regs: [0u64; 32] }, pc: 0 };
        assert(r.gprs.regs@[0] == 0);
        r
    }

    /// Read register `r`. `read(0)` is always 0.
    pub fn read(&self, r: u8) -> (v: u64)
        requires r < 32,
        ensures v == self@[r as int], r == 0 ==> v == 0,
    {
        proof { use_type_invariant(&self.gprs); }
        assert(self@[r as int] == self.gprs.regs@[r as int]);
        self.gprs.regs[r as usize]
    }

    /// Write register `r`; a write to `x0` is discarded.
    pub fn write(&mut self, r: u8, v: u64)
        requires r < 32,
        ensures
            final(self)@ == (if r == 0 { old(self)@ } else { old(self)@.update(r as int, v) }),
            final(self).pc == old(self).pc,
    {
        proof { use_type_invariant(&self.gprs); }
        if r != 0 {
            let mut g = self.gprs;
            g.regs[r as usize] = v;
            self.gprs = g;
            assert(self@ =~= old(self)@.update(r as int, v));
        }
    }
}

impl Default for XRegs {
    fn default() -> (r: Self)
        ensures forall|i: int| 0 <= i < 32 ==> r@[i] == 0, r@.len() == 32, r.pc == 0,
    {
        XRegs::new()
    }
}

/// `name` right-aligned in a field of width 4.
pub open spec fn right4(name: Seq<char>) -> Seq<char> {
    if name.len() >= 4 { name } else { Seq::new((4 - name.len()) as nat, |i: int| ' ') + name }
}

/// The dump line of register `n` holding `v`: `x{n:02}({name:>4}) = 0x{v:016x}` and a newline.
pub open spec fn reg_line(n: nat, v: u64) -> Seq<char> {
    seq!['x', digit_char(n / 10), digit_char(n % 10), '('] + right4(ABI_NAMES@[n as int]@)
        + seq![')', ' ', '=', ' ', '0', 'x'] + hex_fixed(v as nat, 16) + seq!['\n']
}

/// The dump lines of registers `0..n`.
pub open spec fn reg_lines(x: Seq<u64>, n: nat) -> Seq<char>
    decreases n,
{
    if n == 0 { Seq::empty() } else { reg_lines(x, (n - 1) as nat) + reg_line((n - 1) as nat, x[n - 1]) }
}

/// The stable dump of a register file: the PC line, then one line per register.
pub open spec fn dump_text(x: Seq<u64>, pc: u64) -> Seq<char> {
    seq!['p', 'c', ' ', ' ', ' ', ' ', ' ', ' ', ' ', ' ', '=', ' ', '0', 'x'] + hex_fixed(pc as nat, 16) + seq!['\n']
        + reg_lines(x, 32)
}

impl XRegs {
    /// The stable text dump: `pc        = 0x…` then `x00(zero) = 0x…` through `x31(  t6) = 0x…`,
    /// one line each, values as 16 lowercase hex digits.
    pub fn dump(&self) -> (r: String)
        ensures r@ == dump_text(self@, self.pc),
    {
        proof {
            reveal_strlit("pc        = 0x");
            reveal_strlit("\n");
        }
        let mut s = String::new();
        s.append("pc        = 0x");
        push_hex_fixed(&mut s, self.pc, 16);
        s.append("\n");
        let ghost head = s@;
        assert(head =~= seq!['p', 'c', ' ', ' ', ' ', ' ', ' ', ' ', ' ', ' ', '=', ' ', '0', 'x'] + hex_fixed(self.pc as nat, 16) + seq!['\n']);
        let mut n: u8 = 0;
        while n < 32
            invariant
                n <= 32, self@.len() == 32,
                s@ == head + reg_lines(self@, n as nat),
            decreases 32 - n,
        {
            proof {
                reveal_strlit("x");
                reveal_strlit("(");
                reveal_strlit(") = 0x");
                reveal_strlit("\n");
                reveal_strlit(" ");
            }
            let ghost before = s@;
            s.append("x");
            s.append(digit_str((n / 10) as u64));
            s.append(digit_str((n % 10) as u64));
            s.append("(");
            let name: &str = ABI_NAMES[n as usize];
            let len = name.unicode_len();
            let mut pad: usize = len;
            let ghost pre_pad = s@;
            while pad < 4
                invariant
                    len <= pad <= 4 || (len > 4 && pad == len),
                    len == name@.len(),
                    s@ == pre_pad + Seq::new((pad - len) as nat, |i: int| ' '),
                decreases 4 - pad,
            {
                proof { reveal_strlit(" "); }
                s.append(" ");
                assert(Seq::new((pad - len) as nat, |i: int| ' ').push(' ') =~= Seq::new((pad + 1 - len) as nat, |i: int| ' '));
                assert(s@ =~= pre_pad + Seq::new((pad + 1 - len) as nat, |i: int| ' '));
                pad = pad + 1;
            }
            s.append(name);
            s.append(") = 0x");
            let v = self.read(n);
            push_hex_fixed(&mut s, v, 16);
            s.append("\n");
            proof {
                if len >= 4 {
                    assert(Seq::new((pad - len) as nat, |i: int| ' ') =~= Seq::<char>::empty());
                }
                assert(name@ == ABI_NAMES@[n as int]@);
                assert(reg_lines(self@, (n + 1) as nat) == reg_lines(self@, n as nat) + reg_line(n as nat, self@[n as int]));
                assert(s@ =~= before + reg_line(n as nat, self@[n as int]));
            }
            n = n + 1;
        }
        s
    }
}

/// Reading a register gives back the last value written to it, `x0` excepted; other registers
/// are untouched by the write.
pub proof fn lemma_write_then_read(before: XRegs, after: XRegs, w: int, v: u64, r: int)
    requires
        0 <= w < 32, 0 <= r < 32,
        after@ == (if w == 0 { before@ } else { before@.update(w, v) }),
    ensures
        after@[r] == (if r == w && w != 0 { v } else { before@[r] }),
        after@[0] == 0,
{
    before.lemma_wf();
}

} // verus!
