use wasm_vm_core::bus::mmap::DRAM_BASE;
use wasm_vm_core::bus::{Bus, BusFault};
use wasm_vm_core::hart::{Exception, Trap};
use wasm_vm_core::mmio::RecordingDevice;
use wasm_vm_core::platform::virt;
use wasm_vm_core::{kernel_image_footprint, version, Machine, RunOutcome};

type TestMachine = Machine<RecordingDevice>;

#[test]
fn kernel_footprint_honours_image_size() {
    let mut img = vec![0u8; 0x3c];
    img[16..24].copy_from_slice(&0x0011_4d00u64.to_le_bytes());
    img[0x38..0x3c].copy_from_slice(b"RSC\x05");
    assert_eq!(kernel_image_footprint(&img), 0x0011_4d00);
}

#[test]
fn kernel_footprint_falls_back_to_file_len() {
    let img = vec![0u8; 0x200];
    assert_eq!(kernel_image_footprint(&img), 0x200);
    let mut small = vec![0u8; 0x400];
    small[16..24].copy_from_slice(&0x100u64.to_le_bytes());
    small[0x38..0x3c].copy_from_slice(b"RSC\x05");
    assert_eq!(kernel_image_footprint(&small), 0x400);
}

#[test]
fn version_matches_manifest() {
    assert_eq!(version(), "0.0.1");
}

#[test]
fn machine_allocates_requested_ram() {
    let m = TestMachine::new(4096);
    assert_eq!(m.ram_len(), 4096);
}

#[test]
fn machine_tolerates_zero_ram() {
    let m = TestMachine::new(0);
    assert_eq!(m.ram_len(), 0);
}

fn store_words(m: &mut TestMachine, addr: u64, words: &[u32]) {
    for (i, w) in words.iter().enumerate() {
        m.bus_mut().store32(addr + 4 * i as u64, *w).unwrap();
    }
}

#[test]
fn htif_exit_ends_the_run_with_the_guest_code() {
    let mut m = TestMachine::new(64 * 1024);
    m.hart_mut().regs.pc = DRAM_BASE;
    let tohost = DRAM_BASE + 0x1000;
    // addi x1, x0, 3 ; sd x1, 0(x2) ; jal x0, 0
    store_words(&mut m, DRAM_BASE, &[0x0030_0093, 0x0011_3023, 0x0000_006f]);
    m.hart_mut().regs.write(2, tohost);
    m.set_htif(tohost);
    assert_eq!(m.htif_exit(), None);
    assert_eq!(m.run(10), RunOutcome::Exited(1));
    assert_eq!(m.irq_stats().retired, 2);
    assert_eq!(m.htif_exit(), Some(1));
    assert_eq!(m.htif_command_count(), 0);
}

#[test]
fn htif_command_is_counted_once_and_budget_runs_out() {
    let mut m = TestMachine::new(64 * 1024);
    m.hart_mut().regs.pc = DRAM_BASE;
    let tohost = DRAM_BASE + 0x1000;
    // addi x1, x0, 4 ; sd x1, 0(x2) ; jal x0, 0
    store_words(&mut m, DRAM_BASE, &[0x0040_0093, 0x0011_3023, 0x0000_006f]);
    m.hart_mut().regs.write(2, tohost);
    m.set_htif(tohost);
    assert_eq!(m.run(20), RunOutcome::MaxInstrs);
    assert_eq!(m.htif_command_count(), 1, "the command value sits; it is counted once");
    assert_eq!(m.irq_stats().retired, 20);
}

#[test]
fn a_fetch_fault_escapes_as_a_trap_with_the_hart_untouched() {
    let mut m = TestMachine::new(0);
    m.hart_mut().regs.pc = DRAM_BASE;
    let pc = m.hart().regs.pc;
    assert_eq!(
        m.run(5),
        RunOutcome::Trapped(Trap { cause: Exception::InstrAccessFault, tval: pc })
    );
    assert_eq!(m.hart().regs.pc, pc);
    assert_eq!(m.irq_stats().retired, 0);
    assert_eq!(m.step(), Err(Trap { cause: Exception::InstrAccessFault, tval: pc }));
}

#[test]
fn signature_dumps_words_as_padded_hex_lines() {
    let mut m = TestMachine::new(4096);
    m.hart_mut().regs.pc = DRAM_BASE;
    m.bus_mut().store32(DRAM_BASE, 0xdead_beef).unwrap();
    m.bus_mut().store32(DRAM_BASE + 4, 0x12).unwrap();
    assert_eq!(m.signature(DRAM_BASE + 1, DRAM_BASE + 8, 4).unwrap(), "deadbeef\n00000012\n");
    assert_eq!(m.signature(0x10, 0x14, 4).unwrap(), "00000000\n", "a faulting word reads 0");
    assert_eq!(
        m.signature(DRAM_BASE, DRAM_BASE + 4, 8).unwrap_err(),
        "unsupported --signature-granularity 8 (only 4)"
    );
}

#[test]
fn kernel_image_lands_at_kernel_base_and_too_big_is_refused() {
    let mut m = TestMachine::new(4 * 1024 * 1024);
    m.hart_mut().regs.pc = DRAM_BASE;
    let image = vec![0x13u8; 0x100];
    assert_eq!(m.load_kernel_image(&image), Ok(virt::KERNEL_BASE + 0x100));
    assert_eq!(m.bus_mut().load8(virt::KERNEL_BASE), Ok(0x13));
    let mut big = vec![0u8; 0x40];
    big[16..24].copy_from_slice(&(8u64 << 20).to_le_bytes());
    big[0x38..0x3c].copy_from_slice(b"RSC\x05");
    assert_eq!(m.load_kernel_image(&big), Err(BusFault::Access));
    assert_eq!(m.load_blob(DRAM_BASE + 0x10, &[1, 2, 3]), Ok(()));
    assert_eq!(m.load_blob(u64::MAX - 1, &[1, 2, 3]), Err(BusFault::Access));
}

#[test]
fn overlay_generation_advances_and_identity_binds() {
    let mut m = TestMachine::new(0);
    m.hart_mut().regs.pc = DRAM_BASE;
    assert_eq!(m.overlay_generation(), 0);
    assert_eq!(m.advance_overlay_generation(), 1);
    m.set_snapshot_identity([1; 32], [2; 32]);
    let c = m.snapshot_coherence();
    assert_eq!((c.core_hash, c.base_image_hash, c.generation), ([1; 32], [2; 32], 1));
}

#[test]
fn profiling_samples_about_one_retire_per_stride() {
    let mut m = TestMachine::new(64 * 1024);
    m.hart_mut().regs.pc = DRAM_BASE;
    // jal x0, 0: a one-instruction loop.
    store_words(&mut m, DRAM_BASE, &[0x0000_006f]);
    m.set_profiling(true);
    assert_eq!(m.run(5000), RunOutcome::MaxInstrs);
    let n = m.profile().sample_count();
    assert!((3..=5).contains(&n), "about one sample per ~1021..1148 retires: {n}");
    assert_eq!(m.profile().histogram().top(1), vec![(DRAM_BASE, n as u32)]);
    assert!(m.stats_dump().contains("retired=5000"));
}

const COUNT_LOOP: [u32; 6] = [
    0x0000_0093, // addi x1, x0, 0
    0x0640_0113, // addi x2, x0, 100
    0x0030_8093, // loop: addi x1, x1, 3
    0xfff1_0113, // addi x2, x2, -1
    0xfe01_1ce3, // bne x2, x0, loop
    0x0000_006f, // jal x0, 0
];

fn run_count_loop(cache: bool, capacity: Option<usize>) -> TestMachine {
    let mut m = TestMachine::new(64 * 1024);
    m.hart_mut().regs.pc = DRAM_BASE;
    store_words(&mut m, DRAM_BASE, &COUNT_LOOP);
    if let Some(c) = capacity {
        m.set_block_cache_capacity(c);
    }
    m.set_block_cache(cache);
    assert_eq!(m.run(320), RunOutcome::MaxInstrs);
    m
}

#[test]
fn block_cache_runs_identically_to_the_uncached_path() {
    let plain = run_count_loop(false, None);
    let cached = run_count_loop(true, None);
    let tiny = run_count_loop(true, Some(1));
    for m in [&cached, &tiny] {
        assert!(m.block_cache_enabled());
        assert_eq!(m.hart().regs.pc, plain.hart().regs.pc);
        for r in 0..32 {
            assert_eq!(m.hart().regs.read(r), plain.hart().regs.read(r));
        }
    }
    assert_eq!(plain.hart().regs.read(1), 300);
    assert_eq!(plain.hart().regs.read(2), 0);
    assert!(!plain.block_cache_enabled());
}

#[test]
fn hot_loop_is_nominated_once_through_the_machine() {
    let mut m = TestMachine::new(64 * 1024);
    m.hart_mut().regs.pc = DRAM_BASE;
    store_words(&mut m, DRAM_BASE, &COUNT_LOOP);
    m.set_block_cache(true);
    m.set_hotness_threshold(4);
    assert_eq!(m.run(320), RunOutcome::MaxInstrs);
    let s = m.discovery_stats();
    assert!(s.nominated >= 1);
    let reqs = m.take_translation_requests();
    let looped = reqs.iter().find(|r| r.phys_pc == DRAM_BASE + 8).expect("the loop body is nominated");
    assert_eq!(looped.op_lens, vec![4, 4, 4]);
    assert_eq!(looped.code_bytes[..4], 0x0030_8093u32.to_le_bytes());
    let live: Vec<u8> = COUNT_LOOP[2..5].iter().flat_map(|w| w.to_le_bytes()).collect();
    assert!(m.discovery_install_check(looped, &live));
    assert!(!m.discovery_install_check(looped, &live[..8]));
}

const PATCHING_LOOP: [u32; 7] = [
    0x0000_0293, // addi x5, x0, 0
    0x0010_8093, // L: addi x1, x1, 1   (patched to addi x1, x1, 100)
    0x0012_8293, // addi x5, x5, 1
    0x0063_a223, // sw x6, 4(x7)
    0x0020_0413, // addi x8, x0, 2
    0xfe82_c8e3, // blt x5, x8, L
    0x0000_006f, // jal x0, 0
];

fn run_patching_loop(cache: bool) -> TestMachine {
    let mut m = TestMachine::new(64 * 1024);
    m.hart_mut().regs.pc = DRAM_BASE;
    store_words(&mut m, DRAM_BASE, &PATCHING_LOOP);
    m.hart_mut().regs.write(6, 0x0640_8093);
    m.hart_mut().regs.write(7, DRAM_BASE);
    m.set_block_cache(cache);
    assert_eq!(m.run(40), RunOutcome::MaxInstrs);
    m
}

#[test]
fn a_store_into_cached_code_is_seen_by_the_next_fetch() {
    let plain = run_patching_loop(false);
    let cached = run_patching_loop(true);
    assert_eq!(plain.hart().regs.read(1), 101);
    assert_eq!(cached.hart().regs.read(1), 101);
    assert_eq!(cached.hart().regs.read(5), 2);
    let s = cached.discovery_stats();
    assert!(s.blocks_discarded >= 1, "the patched block was dropped");
    assert!(s.generation >= 3, "the toggle and the code write each bumped the generation");
}

#[test]
fn block_cache_toggles_and_batching_needs_the_cache() {
    let mut m = TestMachine::new(4096);
    m.hart_mut().regs.pc = DRAM_BASE;
    assert!(!m.block_cache_enabled());
    m.set_interrupt_batching(true);
    assert!(!m.interrupt_batching());
    m.set_block_cache(true);
    assert!(m.interrupt_batching());
    assert_eq!(m.discovery_stats().cache_flushes, 1);
    m.set_block_cache(false);
    assert_eq!(m.discovery_stats().cache_flushes, 2);
}

#[test]
fn a_fresh_machine_has_an_empty_hart() {
    let m = TestMachine::new(4096);
    assert_eq!(m.hart().regs.pc, 0);
    for r in 0..32u8 {
        assert_eq!(m.hart().regs.read(r), 0);
    }
    let t = TestMachine::try_new(4096).expect("ram");
    assert_eq!(t.hart().regs.pc, DRAM_BASE);
}
