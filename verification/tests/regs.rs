use wasm_vm_core::hart::regs::{XRegs, ABI_NAMES};

#[test]
fn default_is_all_zero_including_pc() {
    let r = XRegs::default();
    for n in 0..32 {
        assert_eq!(r.read(n), 0);
    }
    assert_eq!(r.pc, 0);
}

#[test]
fn x0_writes_are_discarded() {
    let mut r = XRegs::default();
    for v in [1u64, 0xFFFF_FFFF_FFFF_FFFF, 0x8000_0000_0000_0000, 42] {
        r.write(0, v);
        assert_eq!(r.read(0), 0, "x0 must stay hardwired zero");
    }
}

#[test]
fn x1_to_x31_roundtrip_distinct_values() {
    let mut r = XRegs::default();
    for n in 1..32u8 {
        r.write(n, 0x1111_1111_1111_1111u64.wrapping_mul(u64::from(n)));
    }
    for n in 1..32u8 {
        assert_eq!(
            r.read(n),
            0x1111_1111_1111_1111u64.wrapping_mul(u64::from(n)),
            "x{n} clobbered by a neighboring write"
        );
    }
    assert_eq!(r.read(0), 0);
}

#[test]
#[should_panic]
fn out_of_range_read_panics() {
    let r = XRegs::default();
    let _ = r.read(32);
}

#[test]
#[should_panic]
fn out_of_range_write_panics() {
    let mut r = XRegs::default();
    r.write(32, 1);
}

#[test]
fn abi_names_match_psabi() {
    assert_eq!(ABI_NAMES.len(), 32);
    assert_eq!(ABI_NAMES[0], "zero");
    assert_eq!(ABI_NAMES[1], "ra");
    assert_eq!(ABI_NAMES[2], "sp");
    assert_eq!(ABI_NAMES[8], "s0"); // fp alias, psABI canonical name is s0
    assert_eq!(ABI_NAMES[10], "a0");
    assert_eq!(ABI_NAMES[17], "a7");
    assert_eq!(ABI_NAMES[27], "s11");
    assert_eq!(ABI_NAMES[31], "t6");
}

#[test]
fn dump_format_is_byte_stable() {
    let mut r = XRegs { pc: 0x8000_0000, ..Default::default() };
    r.write(1, 0xDEAD_BEEF);
    r.write(2, 0x8000_1000);
    r.write(31, u64::MAX);
    let dump = r.dump();
    let golden = "pc        = 0x0000000080000000\n\
                  x00(zero) = 0x0000000000000000\n\
                  x01(  ra) = 0x00000000deadbeef\n\
                  x02(  sp) = 0x0000000080001000\n\
                  x03(  gp) = 0x0000000000000000\n\
                  x04(  tp) = 0x0000000000000000\n\
                  x05(  t0) = 0x0000000000000000\n\
                  x06(  t1) = 0x0000000000000000\n\
                  x07(  t2) = 0x0000000000000000\n\
                  x08(  s0) = 0x0000000000000000\n\
                  x09(  s1) = 0x0000000000000000\n\
                  x10(  a0) = 0x0000000000000000\n\
                  x11(  a1) = 0x0000000000000000\n\
                  x12(  a2) = 0x0000000000000000\n\
                  x13(  a3) = 0x0000000000000000\n\
                  x14(  a4) = 0x0000000000000000\n\
                  x15(  a5) = 0x0000000000000000\n\
                  x16(  a6) = 0x0000000000000000\n\
                  x17(  a7) = 0x0000000000000000\n\
                  x18(  s2) = 0x0000000000000000\n\
                  x19(  s3) = 0x0000000000000000\n\
                  x20(  s4) = 0x0000000000000000\n\
                  x21(  s5) = 0x0000000000000000\n\
                  x22(  s6) = 0x0000000000000000\n\
                  x23(  s7) = 0x0000000000000000\n\
                  x24(  s8) = 0x0000000000000000\n\
                  x25(  s9) = 0x0000000000000000\n\
                  x26( s10) = 0x0000000000000000\n\
                  x27( s11) = 0x0000000000000000\n\
                  x28(  t3) = 0x0000000000000000\n\
                  x29(  t4) = 0x0000000000000000\n\
                  x30(  t5) = 0x0000000000000000\n\
                  x31(  t6) = 0xffffffffffffffff\n";
    assert_eq!(dump, golden);
    assert_eq!(dump.lines().count(), 33); // pc + 32 registers
}

/// Deterministic 10k-op interleaving vs an independent oracle (a raw array that re-zeroes
/// index 0 after every write).
#[test]
fn interleavings_vs_oracle_lcg() {
    let mut r = XRegs::default();
    let mut oracle = [0u64; 32];
    let mut state: u64 = 0x5EED_2026_0702_0005;
    for _ in 0..10_000 {
        state = state.wrapping_mul(6364136223846793005).wrapping_add(1442695040888963407);
        let reg = (state >> 33) as u8 & 31;
        let val = state ^ (state << 13);
        r.write(reg, val);
        oracle[reg as usize] = val;
        oracle[0] = 0;
        let probe = (state >> 27) as u8 & 31;
        assert_eq!(r.read(probe), oracle[probe as usize]);
        assert_eq!(r.read(0), 0);
    }
}

#[test]
fn hart_dump_is_the_register_dump() {
    let h = wasm_vm_core::hart::Hart::new();
    assert!(h.dump().starts_with("pc        = 0x0000000080000000\n"));
    assert_eq!(h.dump(), h.regs.dump());
}
