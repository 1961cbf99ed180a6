use wasm_vm_core::hart::Hart;
use wasm_vm_core::jit::{abi, ChainStats, CpuStateHandoff, EvictPolicy, ExitCode, JitCacheBudget, JitCacheStats};

#[test]
fn cpu_state_handoff_pins_frozen_layout_endian_and_x0() {
    assert_eq!(abi::XREG_END, 0x100);
    assert_eq!(abi::HANDOFF_END, 0x238);
    assert_eq!(abi::HANDOFF_LEN, 568);
    assert!(abi::HANDOFF_END < abi::CHAIN_ENABLED);
    assert_eq!(abi::CHAIN_DEPTH, 0x260);
    assert_eq!(abi::CHAIN_STORE_BASE, 0x268);

    let mut hart = Hart::default();
    hart.regs.pc = 0x0123_4567_89ab_cdef;
    for register in 1..32u8 {
        hart.regs.write(register, 0x8000_0000_0000_0000 | (u64::from(register) * 0x0102_0304_0506_0708));
    }
    let mut handoff = CpuStateHandoff::default();
    handoff.prepare(&hart);

    assert_eq!(handoff.as_bytes().len(), 568);
    assert_eq!(&handoff.as_bytes()[0..8], &0u64.to_le_bytes());
    for register in 1..32u8 {
        let start = register as usize * 8;
        assert_eq!(&handoff.as_bytes()[start..start + 8], &hart.regs.read(register).to_le_bytes());
    }
    assert_eq!(
        &handoff.as_bytes()[abi::ENTRY_PC as usize..abi::HANDOFF_END as usize],
        &hart.regs.pc.to_le_bytes()
    );

    handoff.put_u64(abi::XREG_BASE, u64::MAX);
    for register in 1..32u8 {
        handoff.put_u64(abi::XREG_BASE + u32::from(register) * 8, 0xfedc_ba98_7654_0000 | u64::from(register));
    }
    handoff.put_u64(abi::EXIT_REASON, 2);
    handoff.put_u64(abi::EXIT_PC, 0x8877_6655_4433_2211);
    handoff.put_u64(abi::EXIT_INFO, 0xff00_ee11_dd22_cc33);
    handoff.commit_registers(&mut hart);

    assert_eq!(hart.regs.read(0), 0);
    for register in 1..32u8 {
        assert_eq!(hart.regs.read(register), 0xfedc_ba98_7654_0000 | u64::from(register));
    }
    assert_eq!(handoff.exit_reason(), 2);
    assert_eq!(handoff.exit_pc(), 0x8877_6655_4433_2211);
    assert_eq!(handoff.exit_info(), 0xff00_ee11_dd22_cc33);
}

#[test]
fn chain_header_and_store_log() {
    let mut h = CpuStateHandoff::default();
    h.begin_chain(true, 40, 7);
    assert_eq!(h.chain_retired(), 0);
    assert_eq!(h.jit_store_count(), 0);
    assert_eq!(h.jit_store_record(0), None);
    h.clear_jit_store_log();
    assert_eq!(h.jit_store_count(), 0);
}

#[test]
fn exit_codes_decode_and_reserved_ones_are_kept() {
    assert_eq!(ExitCode::from_i32(0), ExitCode::Fallthrough);
    assert_eq!(ExitCode::from_i32(1), ExitCode::BranchTaken);
    assert_eq!(ExitCode::from_i32(2), ExitCode::Trap);
    assert_eq!(ExitCode::from_i32(8), ExitCode::Budget);
    assert_eq!(ExitCode::from_i32(5), ExitCode::Reserved(5));
    assert_eq!(ExitCode::from_i32(-1), ExitCode::Reserved(-1));
}

#[test]
fn defaults_and_link_totals() {
    let b = JitCacheBudget::default();
    assert_eq!((b.code_bytes, b.max_batches, b.table_slots, b.metadata_bytes), (32 << 20, 256, 32768, 8 << 20));
    assert_eq!(EvictPolicy::default(), EvictPolicy::BatchLru);
    let s = JitCacheStats::default();
    assert_eq!(s.budget, b);
    assert_eq!(s.installs, 0);
    let mut c = ChainStats::default();
    assert_eq!(c.total_links_followed(), 0);
    c.depth_hist[1] = 4;
    c.depth_hist[3] = 2;
    c.depth_hist[64] = 1;
    assert_eq!(c.total_links_followed(), 4 + 6 + 64);
}
