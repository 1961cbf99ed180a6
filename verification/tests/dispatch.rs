use wasm_vm_core::decode::Instr;
use wasm_vm_core::dispatch::{
    is_terminator, AdmissionReasons, BlockCache, BlockDiscovery, DecodedBlock, DiscoveryStats, MicroOp, NomState,
    TerminatorKind, TranslationRequest,
    HOT_THRESHOLD, MAX_ADMISSION_WITNESSES, MAX_BLOCK_OPS,
};

#[test]
fn csr_and_wfi_terminators_stay_in_the_interpreter() {
    assert!(TerminatorKind::Csr.is_excluded());
    assert!(TerminatorKind::Wfi.is_excluded());
    for t in [TerminatorKind::Branch, TerminatorKind::Jal, TerminatorKind::Jalr, TerminatorKind::Ecall,
              TerminatorKind::Ebreak, TerminatorKind::FenceI, TerminatorKind::Mret, TerminatorKind::Sret,
              TerminatorKind::SfenceVma, TerminatorKind::Fence, TerminatorKind::FallThrough] {
        assert!(!t.is_excluded(), "{t:?}");
    }
    assert_eq!(DiscoveryStats::default().generation, 0);
    assert_eq!(AdmissionReasons::default().nominated, 0);
}

fn body(raw: u32) -> MicroOp {
    MicroOp { instr: Instr::Addi { rd: 1, rs1: 0, imm: 1 }, len: 4, raw }
}

fn term(raw: u32) -> MicroOp {
    MicroOp { instr: Instr::Beq { rs1: 0, rs2: 0, imm: 8 }, len: 4, raw }
}

fn block() -> [MicroOp; 2] {
    [body(0x0010_8093), term(0x0000_0063)]
}

#[test]
fn admission_probe_recurring_full_refusal_exact_identity() {
    let mut d = BlockDiscovery::with_bounds(2, 1);
    d.set_admission_probe(true);
    let ops = block();
    d.on_block_entry(0x1000, &ops);
    for _ in 0..100 {
        d.on_block_entry(u64::MAX - 4095, &ops);
    }
    let stats = d.admission_probe_stats();
    assert!(stats.enabled);
    assert_eq!(stats.observed_entries, 101);
    assert_eq!(stats.full_map_refusals, 100);
    assert_eq!(stats.records.len(), 1);
    let row = &stats.records[0];
    assert_eq!(row.request, TranslationRequest::from_block(u64::MAX - 4095, &ops, 1));
    assert_eq!(row.entries, 100);
    assert_eq!(row.reasons.counts_full, 100);
    assert_eq!((row.first_entry, row.last_entry), (2, 101));
    assert_eq!((row.first_counts_len, row.last_counts_len), (1, 1));
    assert!(!row.discovery_queued && !row.compile_queued);
    assert_eq!(d.stats().nominated, 0);
}

#[test]
fn admission_probe_separates_changed_bytes_lengths_and_generation() {
    let mut d = BlockDiscovery::with_bounds(2, 1);
    d.set_admission_probe(true);
    let a = [body(0x0010_0093)];
    let b = [body(0x0020_0093)];
    let c = [MicroOp { len: 2, ..a[0] }];
    d.on_block_entry(0, &a);
    for ops in [&a[..], &b[..], &c[..], &a[..]] {
        d.on_block_entry(4096, ops);
    }
    let stats = d.admission_probe_stats();
    assert_eq!(stats.records.len(), 3);
    assert_eq!(stats.records.iter().map(|r| r.entries).collect::<Vec<_>>(), [2, 1, 1]);
    assert_ne!(stats.records[0].request.code_bytes, stats.records[1].request.code_bytes);
    assert_eq!(stats.records[2].request.op_lens, [2]);
    d.on_invalidate();
    assert!(d.admission_probe_stats().records.is_empty());
    d.on_block_entry(0, &a);
    d.on_block_entry(4096, &a);
    let stats = d.admission_probe_stats();
    assert_eq!(stats.generation_resets, 1);
    assert_eq!(stats.records[0].request.generation, 2);
    assert_eq!(stats.records[0].entries, 1);
    assert_eq!(stats.full_map_refusals, 1);
    d.reset();
    assert_eq!(d.admission_probe_stats().generation_resets, 2);
    assert!(d.admission_probe_stats().records.is_empty());
}

#[test]
fn admission_probe_cap_and_invalid_blocks_are_bounded() {
    let mut d = BlockDiscovery::with_bounds(2, 1);
    d.set_admission_probe(true);
    let ops = vec![body(0x0010_0093); MAX_BLOCK_OPS];
    d.on_block_entry(0, &ops);
    for phys in 1..=40 {
        d.on_block_entry(phys * 4096, &ops);
    }
    // An unretained identity stays unretained; overflow counts entries, not unique keys.
    d.on_block_entry(40 * 4096, &ops);
    d.on_block_entry(4096, &ops);
    let stats = d.admission_probe_stats();
    assert_eq!(stats.records.len(), MAX_ADMISSION_WITNESSES);
    assert_eq!(stats.records.last().unwrap().request.phys_pc, 32 * 4096);
    assert_eq!(stats.overflow_refusals, 9);
    assert_eq!(stats.records[0].entries, 2);
    assert!(stats.records.iter().all(|r| r.request.code_bytes.len() == 512));
    d.on_block_entry(100 * 4096, &vec![ops[0]; MAX_BLOCK_OPS + 1]);
    d.on_block_entry(100 * 4096, &[]);
    d.on_block_entry(100 * 4096, &[MicroOp { len: 8, ..ops[0] }]);
    assert_eq!(d.admission_probe_stats().invalid_blocks, 3);
    assert_eq!(d.admission_probe_stats().records.len(), 32);
}

#[test]
fn admission_probe_reasons_and_exact_fifo_membership_not_nominal_queued() {
    for (excluded, overflow) in [(false, false), (false, true), (true, false)] {
        let mut d = BlockDiscovery::with_bounds(1, 1);
        d.set_threshold(2);
        d.set_admission_probe(true);
        let cold = block();
        let watched = if excluded {
            vec![MicroOp { instr: Instr::Wfi, raw: 0x1050_0073, len: 4 }]
        } else {
            cold.to_vec()
        };
        d.on_block_entry(0, &cold);
        d.on_block_entry(4096, &watched);
        // Free a counter slot by an ordinary nomination. Optionally leave FIFO full.
        d.on_block_entry(0, &cold);
        if !overflow {
            d.take_requests();
        }
        for _ in 0..3 {
            d.on_block_entry(4096, &watched);
        }
        let row = d.admission_probe_stats().records.remove(0);
        assert_eq!(row.entries, 4);
        assert_eq!(row.reasons.counts_full, 1);
        assert_eq!(row.reasons.counting, 1);
        assert_eq!(row.reasons.excluded, u64::from(excluded));
        assert_eq!(row.reasons.fifo_overflow, u64::from(overflow));
        assert_eq!(row.reasons.nominated, u64::from(!excluded && !overflow));
        assert_eq!(row.reasons.dedup_queued, u64::from(!excluded));
        assert_eq!(row.reasons.dedup_excluded, u64::from(excluded));
        assert_eq!(row.discovery_queued, !excluded && !overflow);
        if row.discovery_queued {
            for field in 0..4 {
                let mut wrong = row.request.clone();
                match field {
                    0 => wrong.phys_pc += 2,
                    1 => wrong.generation += 1,
                    2 => wrong.code_bytes[0] ^= 1,
                    _ => wrong.op_lens[0] = 2,
                }
                assert!(!d.contains_request(&wrong));
            }
            d.take_requests();
            assert!(!d.admission_probe_stats().records[0].discovery_queued);
            assert_eq!(d.state().get(&4096), Some(&NomState::Queued));
        }
    }
}

#[test]
fn admission_probe_default_off_and_decision_parity() {
    let mut off = BlockDiscovery::with_bounds(2, 2);
    let mut on = BlockDiscovery::with_bounds(2, 2);
    on.set_admission_probe(true);
    for d in [&mut off, &mut on] {
        d.set_threshold(3);
    }
    let ops = block();
    for phys in [0, 4096, 8192, 8192, 0, 0, 8192, 8192, 8192, 4096, 4096, 12288, 12288, 12288] {
        off.on_block_entry(phys, &ops);
        on.on_block_entry(phys, &ops);
        assert_eq!(off.stats(), on.stats());
        assert_eq!(off.counts(), on.counts());
        assert_eq!(off.state(), on.state());
        assert_eq!(off.queue(), on.queue());
        assert_eq!(off.queued_hits(), on.queued_hits());
        assert!(off.admission_probe().is_none());
    }
    assert!(!off.admission_probe_stats().enabled);
    assert_eq!(off.admission_probe_stats().records.capacity(), 0);
    assert!(!on.admission_probe_stats().records.is_empty());
    let retained = on.admission_probe_stats();
    on.set_admission_probe(true);
    assert_eq!(retained, on.admission_probe_stats());
    on.set_admission_probe(false);
    assert!(on.admission_probe().is_none());
    assert_eq!(off.take_requests(), on.take_requests());
}

#[test]
fn counter_increments_and_fires_exactly_once() {
    let mut d = BlockDiscovery::new();
    let ops = block();
    // Execute the block far more than the threshold.
    for _ in 0..1000 {
        d.on_block_entry(0x8000_0000, &ops);
    }
    let s = d.stats();
    // Fires exactly once: one request.
    assert_eq!(s.nominated, 1, "threshold must fire exactly once");
    assert_eq!(s.queue_depth, 1);
    // Every post-threshold execution was deduped: 1000 - 64 = 936.
    assert_eq!(s.deduped, 1000 - u64::from(HOT_THRESHOLD));
}

#[test]
fn no_nomination_below_threshold() {
    let mut d = BlockDiscovery::new();
    let ops = block();
    for _ in 0..(HOT_THRESHOLD - 1) {
        d.on_block_entry(0x8000_0000, &ops);
    }
    assert_eq!(d.stats().nominated, 0, "must not nominate before the 64th entry");
    // The 64th entry nominates.
    d.on_block_entry(0x8000_0000, &ops);
    assert_eq!(d.stats().nominated, 1);
}

#[test]
fn dedup_across_distinct_blocks() {
    let mut d = BlockDiscovery::new();
    let a = block();
    let b = block();
    for _ in 0..HOT_THRESHOLD {
        d.on_block_entry(0x8000_0000, &a);
        d.on_block_entry(0x9000_0000, &b);
    }
    let s = d.stats();
    assert_eq!(s.nominated, 2, "two distinct hot blocks nominate independently");
    assert_eq!(s.queue_depth, 2);
}

#[test]
fn translation_request_shape() {
    let mut d = BlockDiscovery::new();
    let ops = block();
    for _ in 0..HOT_THRESHOLD {
        d.on_block_entry(0x8000_0000, &ops);
    }
    let reqs = d.take_requests();
    assert_eq!(reqs.len(), 1);
    let r = &reqs[0];
    assert_eq!(r.phys_pc, 0x8000_0000);
    assert_eq!(r.terminator, TerminatorKind::Branch);
    assert_eq!(r.op_lens, vec![4u8, 4u8]);
    assert_eq!(r.generation, 1);
    // Bytes are the little-endian raw words of the two ops.
    assert_eq!(r.code_bytes, vec![0x93, 0x80, 0x10, 0x00, 0x63, 0x00, 0x00, 0x00]);
    // Draining emptied the queue.
    assert_eq!(d.stats().queue_depth, 0);
}

#[test]
fn csr_and_wfi_blocks_are_excluded() {
    let mut d = BlockDiscovery::new();
    let csr = [MicroOp { instr: Instr::Csrrw { rd: 0, rs1: 1, csr: 0x300 }, len: 4, raw: 0x3000_9073 }];
    let wfi = [MicroOp { instr: Instr::Wfi, len: 4, raw: 0x1050_0073 }];
    for _ in 0..HOT_THRESHOLD {
        d.on_block_entry(0x8000_0000, &csr);
        d.on_block_entry(0x9000_0000, &wfi);
    }
    let s = d.stats();
    assert_eq!(s.nominated, 0, "excluded blocks never enqueue");
    assert_eq!(s.excluded, 2);
    assert_eq!(s.queue_depth, 0);
}

#[test]
fn requeue_after_invalidation_no_stale_survives() {
    let mut d = BlockDiscovery::new();
    let old = block();
    for _ in 0..HOT_THRESHOLD {
        d.on_block_entry(0x8000_0000, &old);
    }
    let stale = d.take_requests().pop().unwrap();
    assert_eq!(stale.generation, 1);

    // Invalidate: the block is re-decoded differently.
    d.on_invalidate();
    assert_eq!(d.generation(), 2);

    // The old request must fail install validation against the new bytes and the bumped generation.
    let new_ops = [body(0xDEAD_BEEF), term(0x0000_0063)];
    let new_bytes: Vec<u8> = {
        let mut v = Vec::new();
        for op in &new_ops {
            for b in 0..op.len {
                v.push((op.raw >> (8 * u32::from(b))) as u8);
            }
        }
        v
    };
    assert!(!d.install_check(&stale, &new_bytes), "stale request must never install against new bytes");
    assert_eq!(d.stats().dropped_stale, 1);

    // The re-decoded hot block re-nominates afresh with the new generation and new bytes.
    for _ in 0..HOT_THRESHOLD {
        d.on_block_entry(0x8000_0000, &new_ops);
    }
    let fresh = d.take_requests().pop().unwrap();
    assert_eq!(fresh.generation, 2, "re-nomination carries the new generation");
    assert_eq!(fresh.code_bytes, new_bytes);
    // A fresh request does validate against live (new) bytes.
    assert!(d.install_check(&fresh, &new_bytes));
}

#[test]
fn stale_generation_alone_blocks_install_even_if_bytes_match() {
    let mut d = BlockDiscovery::new();
    let ops = block();
    for _ in 0..HOT_THRESHOLD {
        d.on_block_entry(0x8000_0000, &ops);
    }
    let req = d.take_requests().pop().unwrap();
    let live = req.code_bytes.clone();
    assert!(d.install_check(&req, &live), "current-gen matching request installs");
    d.on_invalidate();
    assert!(!d.install_check(&req, &live), "same bytes but stale generation must NOT install");
}

#[test]
fn queue_overflow_degrades_gracefully() {
    let mut d = BlockDiscovery::with_bounds(4, 1 << 20);
    let ops = block();
    for i in 0..100u64 {
        let phys = 0x8000_0000 + i * 0x1000;
        for _ in 0..HOT_THRESHOLD {
            d.on_block_entry(phys, &ops);
        }
    }
    let s = d.stats();
    assert_eq!(s.queue_depth, 4, "queue never exceeds its bound");
    assert_eq!(s.nominated, 4);
    assert_eq!(s.dropped_overflow, 96, "excess nominations dropped + counted");
}

#[test]
fn counter_map_is_bounded_under_cold_flood() {
    let mut d = BlockDiscovery::with_bounds(1 << 20, 8);
    let ops = block();
    for i in 0..1000u64 {
        d.on_block_entry(0x8000_0000 + i * 0x1000, &ops);
    }
    let s = d.stats();
    assert!(s.candidates <= 8, "counter map stays within its cap");
    assert_eq!(s.counts_dropped, 1000 - 8);
    assert_eq!(s.nominated, 0);
}

#[test]
fn reset_clears_state_and_bumps_generation() {
    let mut d = BlockDiscovery::new();
    let ops = block();
    for _ in 0..HOT_THRESHOLD {
        d.on_block_entry(0x8000_0000, &ops);
    }
    assert_eq!(d.stats().nominated, 1);
    d.reset();
    let s = d.stats();
    assert_eq!(s.nominated, 0);
    assert_eq!(s.queue_depth, 0);
    assert_eq!(s.generation, 2);
}

#[test]
fn cache_capacity_rounds_up_to_a_power_of_two() {
    assert_eq!(BlockCache::with_capacity(0).capacity(), 1);
    assert_eq!(BlockCache::with_capacity(1).capacity(), 1);
    assert_eq!(BlockCache::with_capacity(3).capacity(), 4);
    assert_eq!(BlockCache::with_capacity(64).capacity(), 64);
    assert_eq!(BlockCache::with_capacity(65).capacity(), 128);
}

fn decoded(phys: u64) -> DecodedBlock {
    DecodedBlock::new(phys, vec![body(0x0010_8093), term(0x0000_0063)], 8)
}

#[test]
fn cache_insert_then_get_hits_and_other_keys_miss() {
    let mut c = BlockCache::with_capacity(16);
    assert!(c.get(0x8000_0000).is_none());
    c.insert(decoded(0x8000_0000));
    c.insert(decoded(0x8000_1000));
    let b = c.get(0x8000_0000).expect("inserted block is found");
    assert_eq!(b.phys_start, 0x8000_0000);
    assert_eq!(b.page_frame, 0x8_0000);
    assert_eq!(b.ops.len(), 2);
    assert_eq!(c.get(0x8000_1000).unwrap().phys_start, 0x8000_1000);
    assert!(c.get(0x8000_2000).is_none());
}

#[test]
fn cache_single_slot_replaces_on_collision() {
    let mut c = BlockCache::with_capacity(1);
    c.insert(decoded(0x1000));
    c.insert(decoded(0x2000));
    assert_eq!(c.get(0x2000).unwrap().phys_start, 0x2000);
    assert!(c.get(0x1000).is_none());
}

#[test]
fn cache_flush_hides_every_block_and_counts() {
    let mut c = BlockCache::with_capacity(8);
    c.insert(decoded(0x1000));
    c.flush();
    assert!(c.get(0x1000).is_none());
    assert_eq!(c.invalidation_stats(), (1, 0));
    c.insert(decoded(0x1000));
    assert!(c.get(0x1000).is_some());
}

#[test]
fn cache_page_flush_drops_only_that_frame() {
    let mut c = BlockCache::with_capacity(16);
    c.insert(decoded(0x1000));
    c.insert(decoded(0x1040));
    c.insert(decoded(0x5000));
    assert!(!c.flush_page(0x9), "a frame without code needs no scan");
    assert!(c.flush_page(0x1));
    assert!(c.get(0x1000).is_none());
    assert!(c.get(0x1040).is_none());
    assert_eq!(c.get(0x5000).unwrap().phys_start, 0x5000);
    assert_eq!(c.invalidation_stats(), (0, 2));
    assert!(!c.flush_page(0x1), "the frame no longer holds code");
    c.note_fence_i();
    assert_eq!(c.fence_i_noops(), 1);
}

#[test]
fn terminator_classification_agrees() {
    let beq = Instr::Beq { rs1: 0, rs2: 0, imm: 8 };
    let addi = Instr::Addi { rd: 1, rs1: 0, imm: 1 };
    let csr = Instr::Csrrs { rd: 1, rs1: 0, csr: 0x300 };
    assert!(is_terminator(&beq));
    assert!(!is_terminator(&addi));
    assert!(is_terminator(&csr));
    assert_eq!(TerminatorKind::of(&beq), TerminatorKind::Branch);
    assert_eq!(TerminatorKind::of(&addi), TerminatorKind::FallThrough);
    assert_eq!(TerminatorKind::of(&csr), TerminatorKind::Csr);
    assert_eq!(TerminatorKind::of(&Instr::Mret), TerminatorKind::Mret);
    assert_eq!(TerminatorKind::of_block(&[]), TerminatorKind::FallThrough);
    assert_eq!(TerminatorKind::of_block(&block()), TerminatorKind::Branch);
}

#[test]
fn queued_block_accrues_hotness_and_renominates_after_eviction() {
    let mut d = BlockDiscovery::new();
    d.set_threshold(2);
    let ops = block();
    for _ in 0..5 {
        d.on_block_entry(0x4000, &ops);
    }
    assert_eq!(d.queued_hotness(0x4000), 2 + 3);
    assert_eq!(d.take_requests_bounded(0).len(), 0);
    assert_eq!(d.peek_request().unwrap().phys_pc, 0x4000);
    d.renominate(0x4000);
    assert_eq!(d.queued_hotness(0x4000), 2);
    d.on_block_entry(0x4000, &ops);
    d.on_block_entry(0x4000, &ops);
    assert_eq!(d.queue_len(), 2);
    assert_eq!(d.take_requests_bounded(1).len(), 1);
    assert_eq!(d.queue_len(), 1);
}
