use wasm_vm_core::dev::virtio::snd::service::{eventq_due, service_plan, settle_capture, settle_playback, ServicePlan};
use wasm_vm_core::dev::virtio::snd::wire::{CaptureReport, PlaybackReport};
use wasm_vm_core::dev::virtio::snd::state::SndState;

#[test]
fn nothing_kicked_and_nothing_in_flight_is_idle() {
    let p = service_plan(false, [false; 4], false, false, false, true, true, true);
    assert!(p.idle && !p.drop_queues && !p.controlq && !p.txq && !p.rxq && !p.eventq_kicked);
    assert!(!eventq_due(p, true, 3));
}

#[test]
fn a_reset_drops_the_queues_even_when_idle() {
    let p = service_plan(true, [false; 4], false, false, false, true, true, true);
    assert!(p.drop_queues && p.idle);
}

#[test]
fn each_queue_is_serviced_on_its_own_kick_or_work() {
    // control, event, tx, rx
    let p = service_plan(false, [true, false, false, false], false, false, false, true, true, true);
    assert_eq!(p, ServicePlan { drop_queues: false, idle: false, controlq: true, txq: false, rxq: false, eventq_kicked: false });
    let p = service_plan(false, [true, false, false, false], false, false, false, false, true, true);
    assert!(!p.controlq && !p.idle);
    let p = service_plan(false, [false; 4], true, false, false, true, true, true);
    assert!(p.txq && !p.rxq);
    let p = service_plan(false, [false, false, false, true], false, false, false, true, true, false);
    assert!(p.idle, "a receive kick without a capture source is not taken");
    let p = service_plan(false, [false, false, false, false], false, true, false, true, true, true);
    assert!(p.rxq && !p.txq);
    let p = service_plan(false, [false, true, false, false], false, false, false, true, true, true);
    assert!(p.eventq_kicked && eventq_due(p, true, 0) && !eventq_due(p, false, 0));
    let p = service_plan(false, [false; 4], false, false, true, true, true, true);
    assert!(!p.idle && !p.eventq_kicked && eventq_due(p, true, 1) && !eventq_due(p, true, 0));
}

#[test]
fn a_queue_violation_drops_the_queue_and_ends_the_pass() {
    let rep = PlaybackReport { completed: 2, queued: 1, ..PlaybackReport::default() };
    let (r, step) = settle_playback::<()>(Ok(rep), true);
    assert_eq!(r, rep);
    assert!(step.continue_pass && step.raise_used_irq && !step.drop_queue && !step.protocol_violation);
    let (_, step) = settle_playback::<()>(Ok(PlaybackReport::default()), true);
    assert!(!step.raise_used_irq);
    let (r, step) = settle_playback(Err("malformed"), true);
    assert_eq!(r, PlaybackReport::default());
    assert!(!step.continue_pass && step.drop_queue && step.protocol_violation && !step.raise_used_irq);
    let step = settle_capture::<()>(Ok(CaptureReport { completed: 1, ..CaptureReport::default() }), false);
    assert!(step.continue_pass && !step.raise_used_irq);
    let step = settle_capture(Err(()), true);
    assert!(step.drop_queue && step.protocol_violation && !step.continue_pass);
}

#[test]
fn a_pass_consumes_the_reset_marker_and_the_kicks_it_takes() {
    let mut s = SndState::new();
    s.reset();
    s.mark_queue_kick(0);
    s.mark_queue_kick(3);
    let p = s.plan_service(true, true, false);
    assert!(p.drop_queues && p.controlq && !p.rxq && !p.idle);
    assert!(!s.take_reset_pending());
    assert!(!s.take_queue_kick(0));
    assert!(s.take_queue_kick(3), "the receive kick stays when no capture source is wired");
    let p = s.plan_service(true, true, false);
    assert!(p.idle && !p.drop_queues);
}
