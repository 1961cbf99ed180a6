//! The decisions of one service pass over the sound device's queues: whether the ring views are
//! dropped after a reset, whether anything is to be done, which queues are serviced, and how the
//! outcome of a queue service is settled (a malformed ring is a protocol violation that drops
//! that queue and ends the pass). The host performs each service the plan names and hands the
//! outcome back.

use vstd::prelude::*;
use super::wire::{PlaybackReport, CaptureReport};
use super::{CONTROL_QUEUE, EVENT_QUEUE, TX_QUEUE, RX_QUEUE};

verus! {

/// What one service pass over the sound queues does.
#[derive(Debug, Clone, Copy, PartialEq, Eq)]
pub struct ServicePlan {
    /// A device reset was seen: every queue's ring view is dropped first.
    pub drop_queues: bool,
    /// No queue was kicked and nothing is in flight: the pass does nothing more.
    pub idle: bool,
    /// The control queue is serviced.
    pub controlq: bool,
    /// The transmit (playback) queue is prepared and serviced.
    pub txq: bool,
    /// The receive (capture) queue is prepared and serviced.
    pub rxq: bool,
    /// The event queue was kicked; it is also serviced whenever events are pending.
    pub eventq_kicked: bool,
}

/// The plan for a pass: `reset` and `kicks` (indexed by queue) were taken from the state;
/// `active_audio`, `active_capture` and `active_events` say what is in flight; `has_controlq`,
/// `has_eventq` and `has_capture` say which optional queues (and a capture source) are wired.
pub open spec fn plan_of(
    reset: bool, kicks: Seq<bool>, active_audio: bool, active_capture: bool, active_events: bool,
    has_controlq: bool, has_eventq: bool, has_capture: bool,
) -> ServicePlan {
    let rx_kicked = has_capture && kicks[RX_QUEUE as int];
    let capture_busy = has_capture && active_capture;
    let idle = !kicks[CONTROL_QUEUE as int] && !kicks[TX_QUEUE as int] && !rx_kicked && !kicks[EVENT_QUEUE as int]
        && !active_audio && !capture_busy && !active_events;
    ServicePlan {
        drop_queues: reset,
        idle,
        controlq: !idle && has_controlq && kicks[CONTROL_QUEUE as int],
        txq: !idle && (kicks[TX_QUEUE as int] || active_audio),
        rxq: !idle && (rx_kicked || capture_busy),
        eventq_kicked: !idle && has_eventq && kicks[EVENT_QUEUE as int],
    }
}

/// Decide one service pass (see [`plan_of`]).
pub fn service_plan(
    reset: bool, kicks: [bool; 4], active_audio: bool, active_capture: bool, active_events: bool,
    has_controlq: bool, has_eventq: bool, has_capture: bool,
) -> (r: ServicePlan)
    ensures r == plan_of(reset, kicks@, active_audio, active_capture, active_events, has_controlq, has_eventq, has_capture),
{
    let rx_kicked = has_capture && kicks[RX_QUEUE as usize];
    let capture_busy = has_capture && active_capture;
    let idle = !kicks[CONTROL_QUEUE as usize] && !kicks[TX_QUEUE as usize] && !rx_kicked && !kicks[EVENT_QUEUE as usize]
        && !active_audio && !capture_busy && !active_events;
    ServicePlan {
        drop_queues: reset,
        idle,
        controlq: !idle && has_controlq && kicks[CONTROL_QUEUE as usize],
        txq: !idle && (kicks[TX_QUEUE as usize] || active_audio),
        rxq: !idle && (rx_kicked || capture_busy),
        eventq_kicked: !idle && has_eventq && kicks[EVENT_QUEUE as usize],
    }
}

/// Is the event queue serviced at the end of a pass planned as `plan`, with `pending_events`
/// events then waiting? Only when the pass is not idle, the queue is wired, and it was kicked or
/// events are pending.
pub fn eventq_due(plan: ServicePlan, has_eventq: bool, pending_events: usize) -> (r: bool)
    ensures r == (!plan.idle && has_eventq && (plan.eventq_kicked || pending_events != 0)),
{
    !plan.idle && has_eventq && (plan.eventq_kicked || pending_events != 0)
}

/// What a pass does after one queue service.
#[derive(Debug, Clone, Copy, PartialEq, Eq)]
pub struct QueueStep {
    /// The pass goes on to the next queue.
    pub continue_pass: bool,
    /// The queue's ring view is dropped.
    pub drop_queue: bool,
    /// The transport records a protocol violation.
    pub protocol_violation: bool,
    /// The used-buffer interrupt is raised.
    pub raise_used_irq: bool,
}

/// The empty playback report.
pub open spec fn no_playback() -> PlaybackReport {
    PlaybackReport {
        queued: 0, completed: 0, errors: 0, frames_pushed: 0, latency_bytes: 0, pending_bytes: 0,
        next_deadline_ns: None, xrun_events: 0, event_descriptors_completed: 0,
    }
}

/// The step after a queue service that completed `completed` descriptors: go on, and raise the
/// used-buffer interrupt when some were completed and the queue asks for one.
pub open spec fn serviced_step(completed: u32, interrupt_needed: bool) -> QueueStep {
    QueueStep { continue_pass: true, drop_queue: false, protocol_violation: false, raise_used_irq: completed != 0 && interrupt_needed }
}

/// The step after a queue service found its ring malformed: record a protocol violation, drop
/// the queue, and end the pass.
pub open spec fn violation_step() -> QueueStep {
    QueueStep { continue_pass: false, drop_queue: true, protocol_violation: true, raise_used_irq: false }
}

/// Settle the playback service's outcome: its report and the step after it; on a violation the
/// pass reports nothing.
pub fn settle_playback<E>(result: Result<PlaybackReport, E>, interrupt_needed: bool) -> (r: (PlaybackReport, QueueStep))
    ensures
        match result {
            Ok(rep) => r == (rep, serviced_step(rep.completed, interrupt_needed)),
            Err(_) => r == (no_playback(), violation_step()),
        },
{
    match result {
        Ok(rep) => {
            let raise = rep.completed != 0 && interrupt_needed;
            (rep, QueueStep { continue_pass: true, drop_queue: false, protocol_violation: false, raise_used_irq: raise })
        },
        Err(_) => (
            PlaybackReport {
                queued: 0, completed: 0, errors: 0, frames_pushed: 0, latency_bytes: 0, pending_bytes: 0,
                next_deadline_ns: None, xrun_events: 0, event_descriptors_completed: 0,
            },
            QueueStep { continue_pass: false, drop_queue: true, protocol_violation: true, raise_used_irq: false },
        ),
    }
}

/// Settle the capture service's outcome: the step after it.
pub fn settle_capture<E>(result: Result<CaptureReport, E>, interrupt_needed: bool) -> (r: QueueStep)
    ensures
        match result {
            Ok(rep) => r == serviced_step(rep.completed, interrupt_needed),
            Err(_) => r == violation_step(),
        },
{
    match result {
        Ok(rep) => QueueStep {
            continue_pass: true, drop_queue: false, protocol_violation: false,
            raise_used_irq: rep.completed != 0 && interrupt_needed,
        },
        Err(_) => QueueStep { continue_pass: false, drop_queue: true, protocol_violation: true, raise_used_irq: false },
    }
}

} // verus!
