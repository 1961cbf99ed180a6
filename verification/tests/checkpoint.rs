use wasm_vm_core::decode::Instr;
use wasm_vm_core::dispatch::MicroOp;
use wasm_vm_core::hart::{Exception, Trap};
use wasm_vm_core::jit::{ExitCode, JitExit};
use wasm_vm_core::bus::mmap::DRAM_BASE;
use wasm_vm_core::mmio::RecordingDevice;
use wasm_vm_core::resume::{encode_sparse, SnapshotError, SnapshotHeader};
use wasm_vm_core::trace::{NullSink, VecSink};
use wasm_vm_core::{Machine, RunOutcome};

type TestMachine = Machine<RecordingDevice>;

fn ram_image(m: &mut TestMachine) -> Vec<u8> {
    m.bus_mut().ram().as_bytes().to_vec()
}

fn seeded() -> TestMachine {
    let mut m = TestMachine::new(8192);
    m.hart_mut().regs.pc = DRAM_BASE;
    m.set_snapshot_identity([1; 32], [2; 32]);
    // addi x5, x0, 7 ; addi x6, x5, 1
    m.load_blob(DRAM_BASE, &[0x93, 0x02, 0x70, 0x00, 0x13, 0x83, 0x12, 0x00]).unwrap();
    m.load_blob(DRAM_BASE + 4096, &[9, 9, 9]).unwrap();
    assert_eq!(m.run(2), RunOutcome::MaxInstrs);
    m
}

#[test]
fn save_then_load_restores_registers_and_ram() {
    let mut source = seeded();
    let blob = source.save_resume().expect("save");
    let (header, _) = SnapshotHeader::parse(&blob).expect("header");
    assert_eq!(header.core_hash, [1; 32]);
    assert_eq!(header.base_image_hash, [2; 32]);
    assert_eq!(header.overlay_generation, 0);

    let mut target = TestMachine::new(8192);
    target.hart_mut().regs.pc = DRAM_BASE;
    target.set_snapshot_identity([1; 32], [2; 32]);
    target.load_resume(&blob).expect("restore");
    assert_eq!(target.hart().regs.read(5), 7);
    assert_eq!(target.hart().regs.read(6), 8);
    assert_eq!(target.hart().regs.pc, DRAM_BASE + 8);
    assert_eq!(ram_image(&mut target), ram_image(&mut source));
}

#[test]
fn a_refused_blob_leaves_the_machine_untouched() {
    let mut source = seeded();
    let blob = source.save_resume().expect("save");
    let mut target = TestMachine::new(8192);
    target.hart_mut().regs.pc = DRAM_BASE;
    target.set_snapshot_identity([1; 32], [3; 32]);
    let before = ram_image(&mut target);
    assert_eq!(target.load_resume(&blob), Err(SnapshotError::BaseImageMismatch));
    assert_eq!(target.hart().regs.pc, DRAM_BASE);
    assert_eq!(ram_image(&mut target), before);

    let mut stale = TestMachine::new(8192);
    stale.hart_mut().regs.pc = DRAM_BASE;
    stale.set_snapshot_identity([1; 32], [2; 32]);
    stale.advance_overlay_generation();
    assert_eq!(
        stale.load_resume(&blob),
        Err(SnapshotError::OverlayGenerationMismatch { snapshot: 0, current: 1 })
    );
    assert_eq!(stale.load_resume(&blob[..40]), Err(SnapshotError::Truncated));
}

#[test]
fn a_ram_section_of_another_size_is_refused() {
    let mut source = seeded();
    let blob = source.save_resume().expect("save");
    let mut target = TestMachine::new(4096);
    target.hart_mut().regs.pc = DRAM_BASE;
    target.set_snapshot_identity([1; 32], [2; 32]);
    assert_eq!(target.load_resume(&blob), Err(SnapshotError::BadComponentState { tag: 2 }));
}

#[test]
fn a_zero_budget_run_changes_nothing() {
    let mut m = seeded();
    let pc = m.hart().regs.pc;
    let ram = ram_image(&mut m);
    assert_eq!(m.run_traced(0, &mut NullSink), RunOutcome::MaxInstrs);
    assert_eq!(m.hart().regs.pc, pc);
    assert_eq!(ram_image(&mut m), ram);
}

#[test]
fn each_retirement_hands_over_one_record() {
    let mut m = TestMachine::new(4096);
    m.hart_mut().regs.pc = DRAM_BASE;
    m.load_blob(DRAM_BASE, &[0x93, 0x02, 0x70, 0x00, 0x73, 0x00, 0x10, 0x00]).unwrap();
    let mut sink = VecSink::new();
    assert!(matches!(m.run_traced(5, &mut sink), RunOutcome::Trapped(_)));
    assert_eq!(sink.records.len(), 1);
    assert_eq!(sink.records[0].pc, DRAM_BASE);
}

#[test]
fn sparse_chunks_follow_the_runs() {
    assert_eq!(encode_sparse(&[]), Vec::<u8>::new());
    assert_eq!(encode_sparse(&[0u8; 10]), vec![0, 10, 0, 0, 0]);
    assert_eq!(encode_sparse(&[7, 7]), vec![1, 2, 0, 0, 0, 7, 7]);
    assert_eq!(encode_sparse(&[0, 0, 5, 0]), vec![0, 2, 0, 0, 0, 1, 1, 0, 0, 0, 5, 0, 1, 0, 0, 0]);
}

#[test]
fn jit_exits_set_pc_and_retire_counts() {
    let ops = [
        MicroOp { instr: Instr::Ecall, len: 4, raw: 0x13 },
        MicroOp { instr: Instr::Ecall, len: 4, raw: 0x13 },
        MicroOp { instr: Instr::Ecall, len: 4, raw: 0x73 },
    ];
    let mut m = TestMachine::new(4096);
    m.hart_mut().regs.pc = DRAM_BASE;
    let exit = |code, next_pc, trap| JitExit { code, next_pc, exit_info: 0, trap, retired: 0 };
    assert_eq!(m.apply_jit_exit(exit(ExitCode::Fallthrough, DRAM_BASE + 12, None), &ops, DRAM_BASE), Ok(()));
    assert_eq!(m.hart().regs.pc, DRAM_BASE + 12);
    assert_eq!(m.irq_stats().retired, 3);
    assert_eq!(
        m.apply_jit_exit(exit(ExitCode::Trap, DRAM_BASE + 8, None), &ops, DRAM_BASE),
        Err(Trap { cause: Exception::EcallFromM, tval: 0 })
    );
    assert_eq!(m.irq_stats().retired, 5);
    let fault = Trap { cause: Exception::LoadAccessFault, tval: 0x10 };
    assert_eq!(m.apply_jit_exit(exit(ExitCode::Trap, DRAM_BASE + 4, Some(fault)), &ops, DRAM_BASE), Err(fault));
    assert_eq!(m.hart().regs.pc, DRAM_BASE + 4);
    assert_eq!(m.irq_stats().retired, 6);
}
