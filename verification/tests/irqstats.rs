use wasm_vm_core::diag::irqstats::IrqStats;

#[test]
fn storm_fires_after_consecutive_hot_windows() {
    let mut s = IrqStats::new();
    for _ in 0..3 {
        for _ in 0..1000 {
            s.on_retire();
        }
        for _ in 0..100 {
            s.on_interrupt(9);
        }
        s.on_claim(10);
        let r = s.check_storm(1000, 50, 3);
        if s.retired == 3000 {
            let r = r.expect("storm fires on the 3rd consecutive hot window");
            assert_eq!(r.hot_irq, Some((10, 1)), "names IRQ 10 as the hot line (this window)");
            assert!(r.window_traps >= 100);
        } else {
            assert!(r.is_none(), "no fire before 3 consecutive hot windows");
        }
    }
}

#[test]
fn quiet_windows_never_fire_and_reset_the_streak() {
    let mut s = IrqStats::new();
    let hot = [true, true, false, true, true];
    for &is_hot in &hot {
        for _ in 0..1000 {
            s.on_retire();
        }
        let traps = if is_hot { 100 } else { 1 };
        for _ in 0..traps {
            s.on_exception(5);
        }
        assert!(
            s.check_storm(1000, 50, 3).is_none(),
            "a quiet window breaks the streak → never 3 consecutive hot"
        );
    }
}

#[test]
fn window_stays_open_until_enough_retired() {
    let mut s = IrqStats::new();
    for _ in 0..500 {
        s.on_retire();
    }
    s.on_interrupt(9);
    assert!(s.check_storm(1000, 0, 1).is_none(), "500 < 1000 window → open");
    for _ in 0..500 {
        s.on_retire();
    }
    assert!(s.check_storm(1000, 0, 1).is_some(), "window closes at 1000 with traps > 0");
}

#[test]
fn wfi_watchdog_fires_once_then_rearms() {
    let mut s = IrqStats::new();
    assert!(s.wfi_watchdog(true, false).is_some(), "reports stuck WFI");
    assert!(s.wfi_watchdog(true, false).is_none(), "only once per episode");
    assert!(s.wfi_watchdog(true, true).is_none(), "armed wakeup → no report");
    assert!(s.wfi_watchdog(true, false).is_some(), "re-fires after re-arming");
}

#[test]
fn wfi_watchdog_silent_when_making_progress_or_armed() {
    let mut s = IrqStats::new();
    assert!(s.wfi_watchdog(false, false).is_none(), "not idling → silent");
    assert!(s.wfi_watchdog(true, true).is_none(), "timer armed → silent");
}

#[test]
fn naming_uses_the_window_not_the_lifetime_leader() {
    let mut s = IrqStats::new();
    let claim_pattern = [(10, 500), (10, 500), (11, 10), (11, 10), (11, 10)];
    let mut fired = None;
    for &(irq, n) in &claim_pattern {
        for _ in 0..1000 {
            s.on_retire();
        }
        for _ in 0..100 {
            s.on_exception(2);
        }
        for _ in 0..n {
            s.on_claim(irq);
        }
        if let Some(r) = s.check_storm(1000, 50, 3) {
            fired = Some(r);
        }
    }
    let r = fired.expect("storm fired");
    assert_eq!(
        r.hot_irq.map(|(id, _)| id),
        Some(11),
        "names the line hot IN the firing window (11), not the lifetime leader (10)"
    );
}

#[test]
fn hottest_irq_picks_the_max() {
    let mut s = IrqStats::new();
    assert_eq!(s.hottest_irq(), None);
    for _ in 0..3 {
        s.on_claim(10);
    }
    for _ in 0..7 {
        s.on_claim(11);
    }
    assert_eq!(s.hottest_irq(), Some((11, 7)));
}

#[test]
fn dump_lists_counters_and_wfi_report_names_the_retire_count() {
    let mut s = IrqStats::new();
    for _ in 0..12 {
        s.on_retire();
    }
    s.on_claim(10);
    s.on_wfi();
    let msg = s.wfi_watchdog(true, false).expect("stuck WFI reported");
    assert!(msg.contains("12"), "report names the retire count: {msg}");
    let d = s.dump();
    assert!(d.contains("retired=12"), "dump: {d}");
}

#[test]
fn each_wfi_report_is_kept_as_the_last_one() {
    let mut s = IrqStats::new();
    let msg = s.wfi_watchdog(true, false).expect("fires");
    assert_eq!(s.last_wfi_report.as_deref(), Some(msg.as_str()));
    assert!(s.wfi_watchdog(true, false).is_none());
    assert_eq!(s.last_wfi_report.as_deref(), Some(msg.as_str()));
}
