//! The PCM stream lifecycle: five states, six state-sensitive requests, and the explicit status
//! oracle every request is checked against. A rejected request leaves the stream unchanged.

use vstd::prelude::*;
use super::SndStatus;
use super::wire::{PcmParams, params_valid_for};

verus! {

/// The five observable states of a PCM stream.
#[derive(Debug, Clone, Copy, PartialEq, Eq)]
pub enum PcmState {
    Released,
    SetParams,
    Prepared,
    Running,
    Stopped,
}

/// The wire number of a state (its position in the lifecycle enum).
pub open spec fn state_index(s: PcmState) -> u8 {
    match s {
        PcmState::Released => 0,
        PcmState::SetParams => 1,
        PcmState::Prepared => 2,
        PcmState::Running => 3,
        PcmState::Stopped => 4,
    }
}

/// The state with wire number `b`, if any.
pub open spec fn state_of_index(b: u8) -> Option<PcmState> {
    if b == 0 {
        Some(PcmState::Released)
    } else if b == 1 {
        Some(PcmState::SetParams)
    } else if b == 2 {
        Some(PcmState::Prepared)
    } else if b == 3 {
        Some(PcmState::Running)
    } else if b == 4 {
        Some(PcmState::Stopped)
    } else {
        None
    }
}

impl PcmState {
    /// The wire number of this state.
    pub fn index(self) -> (r: u8)
        ensures r == state_index(self),
    {
        match self {
            PcmState::Released => 0,
            PcmState::SetParams => 1,
            PcmState::Prepared => 2,
            PcmState::Running => 3,
            PcmState::Stopped => 4,
        }
    }

    /// The state with wire number `b`, if any.
    pub fn from_index(b: u8) -> (r: Option<PcmState>)
        ensures r == state_of_index(b),
    {
        if b == 0 {
            Some(PcmState::Released)
        } else if b == 1 {
            Some(PcmState::SetParams)
        } else if b == 2 {
            Some(PcmState::Prepared)
        } else if b == 3 {
            Some(PcmState::Running)
        } else if b == 4 {
            Some(PcmState::Stopped)
        } else {
            None
        }
    }
}

impl Default for PcmState {
    fn default() -> (r: Self)
        ensures r == PcmState::Released,
    {
        PcmState::Released
    }
}

/// The six state-sensitive control requests.
#[derive(Debug, Clone, Copy, PartialEq, Eq)]
pub enum PcmControl {
    Info,
    SetParams,
    Prepare,
    Start,
    Stop,
    Release,
}

/// The request a wire code selects, if any.
pub open spec fn control_of_code(code: u32) -> Option<PcmControl> {
    if code == super::VIRTIO_SND_R_PCM_INFO {
        Some(PcmControl::Info)
    } else if code == super::VIRTIO_SND_R_PCM_SET_PARAMS {
        Some(PcmControl::SetParams)
    } else if code == super::VIRTIO_SND_R_PCM_PREPARE {
        Some(PcmControl::Prepare)
    } else if code == super::VIRTIO_SND_R_PCM_START {
        Some(PcmControl::Start)
    } else if code == super::VIRTIO_SND_R_PCM_STOP {
        Some(PcmControl::Stop)
    } else if code == super::VIRTIO_SND_R_PCM_RELEASE {
        Some(PcmControl::Release)
    } else {
        None
    }
}

/// The position of a request in the oracle's request order.
pub open spec fn control_index(c: PcmControl) -> int {
    match c {
        PcmControl::Info => 0,
        PcmControl::SetParams => 1,
        PcmControl::Prepare => 2,
        PcmControl::Start => 3,
        PcmControl::Stop => 4,
        PcmControl::Release => 5,
    }
}

impl PcmControl {
    /// The position of this request in the oracle's request order.
    pub fn index(self) -> (r: usize)
        ensures r == control_index(self), r < 6,
    {
        match self {
            PcmControl::Info => 0,
            PcmControl::SetParams => 1,
            PcmControl::Prepare => 2,
            PcmControl::Start => 3,
            PcmControl::Stop => 4,
            PcmControl::Release => 5,
        }
    }

    /// Request order used by the transition oracle.
    pub fn all() -> (r: [PcmControl; 6])
        ensures r@ == seq![PcmControl::Info, PcmControl::SetParams, PcmControl::Prepare,
            PcmControl::Start, PcmControl::Stop, PcmControl::Release],
    {
        let r = [PcmControl::Info, PcmControl::SetParams, PcmControl::Prepare, PcmControl::Start,
            PcmControl::Stop, PcmControl::Release];
        assert(r@ =~= seq![PcmControl::Info, PcmControl::SetParams, PcmControl::Prepare,
            PcmControl::Start, PcmControl::Stop, PcmControl::Release]);
        r
    }

    /// Map a wire request code to a state-sensitive control request.
    pub fn from_code(code: u32) -> (r: Option<PcmControl>)
        ensures r == control_of_code(code),
    {
        if code == super::VIRTIO_SND_R_PCM_INFO {
            Some(PcmControl::Info)
        } else if code == super::VIRTIO_SND_R_PCM_SET_PARAMS {
            Some(PcmControl::SetParams)
        } else if code == super::VIRTIO_SND_R_PCM_PREPARE {
            Some(PcmControl::Prepare)
        } else if code == super::VIRTIO_SND_R_PCM_START {
            Some(PcmControl::Start)
        } else if code == super::VIRTIO_SND_R_PCM_STOP {
            Some(PcmControl::Stop)
        } else if code == super::VIRTIO_SND_R_PCM_RELEASE {
            Some(PcmControl::Release)
        } else {
            None
        }
    }
}

pub const PCM_STATE_COUNT: usize = 5;
pub const PCM_CONTROL_COUNT: usize = 6;

/// The status oracle, in state order Released, SetParams, Prepared, Running, Stopped and request
/// order Info, SetParams, Prepare, Start, Stop, Release.
pub const PCM_TRANSITION_ORACLE: [[SndStatus; 6]; 5] = [
    [SndStatus::Success, SndStatus::Success, SndStatus::BadMsg, SndStatus::BadMsg, SndStatus::BadMsg, SndStatus::BadMsg],
    [SndStatus::Success, SndStatus::BadMsg, SndStatus::Success, SndStatus::BadMsg, SndStatus::BadMsg, SndStatus::BadMsg],
    [SndStatus::Success, SndStatus::BadMsg, SndStatus::BadMsg, SndStatus::Success, SndStatus::BadMsg, SndStatus::Success],
    [SndStatus::Success, SndStatus::BadMsg, SndStatus::BadMsg, SndStatus::BadMsg, SndStatus::Success, SndStatus::BadMsg],
    [SndStatus::Success, SndStatus::BadMsg, SndStatus::BadMsg, SndStatus::Success, SndStatus::BadMsg, SndStatus::Success],
];

/// The same table under its short name.
pub const TRANSITION_ORACLE: [[SndStatus; 6]; 5] = PCM_TRANSITION_ORACLE;

/// The state a request moves to from `s` when the oracle accepts it (otherwise `s`).
pub open spec fn next_state(s: PcmState, r: PcmControl) -> PcmState {
    match (s, r) {
        (PcmState::Released, PcmControl::SetParams) => PcmState::SetParams,
        (PcmState::SetParams, PcmControl::Prepare) => PcmState::Prepared,
        (PcmState::Prepared, PcmControl::Start) => PcmState::Running,
        (PcmState::Prepared, PcmControl::Release) => PcmState::Released,
        (PcmState::Running, PcmControl::Stop) => PcmState::Stopped,
        (PcmState::Stopped, PcmControl::Start) => PcmState::Running,
        (PcmState::Stopped, PcmControl::Release) => PcmState::Released,
        _ => s,
    }
}

/// The oracle's status for request `r` in state `s`: INFO is always accepted; every other request
/// is accepted exactly when it moves the stream along its lifecycle.
pub open spec fn oracle_status(s: PcmState, r: PcmControl) -> SndStatus {
    if r == PcmControl::Info || next_state(s, r) != s {
        SndStatus::Success
    } else {
        SndStatus::BadMsg
    }
}

/// Result of asking the state machine about one lifecycle request.
#[derive(Debug, Clone, Copy, PartialEq, Eq)]
pub struct PcmTransition {
    pub status: SndStatus,
    pub next: PcmState,
}

/// Look up one cell of the state-machine contract.
pub fn transition(state: PcmState, request: PcmControl) -> (r: PcmTransition)
    ensures r.status == oracle_status(state, request), r.next == next_state(state, request),
{
    let next = match (state, request) {
        (PcmState::Released, PcmControl::SetParams) => PcmState::SetParams,
        (PcmState::SetParams, PcmControl::Prepare) => PcmState::Prepared,
        (PcmState::Prepared, PcmControl::Start) => PcmState::Running,
        (PcmState::Prepared, PcmControl::Release) => PcmState::Released,
        (PcmState::Running, PcmControl::Stop) => PcmState::Stopped,
        (PcmState::Stopped, PcmControl::Start) => PcmState::Running,
        (PcmState::Stopped, PcmControl::Release) => PcmState::Released,
        _ => state,
    };
    let moved = match (state, request) {
        (PcmState::Released, PcmControl::SetParams) | (PcmState::SetParams, PcmControl::Prepare)
        | (PcmState::Prepared, PcmControl::Start) | (PcmState::Prepared, PcmControl::Release)
        | (PcmState::Running, PcmControl::Stop) | (PcmState::Stopped, PcmControl::Start)
        | (PcmState::Stopped, PcmControl::Release) => true,
        _ => false,
    };
    let status = if matches!(request, PcmControl::Info) || moved { SndStatus::Success } else { SndStatus::BadMsg };
    PcmTransition { status, next }
}

/// The mutable state of one PCM stream.
#[derive(Debug, Clone, Copy, PartialEq, Eq)]
pub struct PcmStream {
    state: PcmState,
    params: Option<PcmParams>,
}

/// Whether a SET_PARAMS request with `p` is accepted: the oracle allows it in `s`, the
/// parameters are valid for the stream profile, and the rate is in `rate_mask`.
pub open spec fn set_params_accepted(s: PcmState, p: PcmParams, rate_mask: u64, stream_id: u32, channels_min: u8, channels_max: u8) -> bool {
    &&& oracle_status(s, PcmControl::SetParams) == SndStatus::Success
    &&& params_valid_for(p, stream_id, channels_min, channels_max)
    &&& p.rate < 64 && rate_mask & (1u64 << p.rate) != 0
}

impl PcmStream {
    /// The lifecycle state.
    pub closed spec fn spec_state(&self) -> PcmState {
        self.state
    }

    /// The stream parameters.
    pub closed spec fn spec_params(&self) -> Option<PcmParams> {
        self.params
    }

    /// A stream in the given state with the given parameters.
    pub fn from_parts(state: PcmState, params: Option<PcmParams>) -> (r: Self)
        ensures r.spec_state() == state, r.spec_params() == params,
    {
        PcmStream { state, params }
    }

    /// A released stream with no parameters.
    pub fn new() -> (r: Self)
        ensures r.spec_state() == PcmState::Released, r.spec_params() is None,
    {
        PcmStream { state: PcmState::Released, params: None }
    }

    /// Current lifecycle state.
    pub fn state(&self) -> (r: PcmState)
        ensures r == self.spec_state(),
    {
        self.state
    }

    /// Current parameters, present only after a successful SET_PARAMS and before RELEASE.
    pub fn params(&self) -> (r: Option<PcmParams>)
        ensures r == self.spec_params(),
    {
        self.params
    }

    /// Apply SET_PARAMS for the output stream against the default rates.
    pub fn set_params(&mut self, params: PcmParams) -> (r: SndStatus)
        ensures
            set_params_accepted(old(self).spec_state(), params, super::SUPPORTED_PCM_RATE_MASK, 0, 2, 2) ==> r == SndStatus::Success
                && final(self).spec_state() == PcmState::SetParams && final(self).spec_params() == Some(params),
            !set_params_accepted(old(self).spec_state(), params, super::SUPPORTED_PCM_RATE_MASK, 0, 2, 2) ==> r == SndStatus::BadMsg
                && *final(self) == *old(self),
    {
        self.set_params_with_rate_mask(params, super::SUPPORTED_PCM_RATE_MASK)
    }

    /// Apply SET_PARAMS for the output stream against the rates the host backend supports.
    pub fn set_params_with_rate_mask(&mut self, params: PcmParams, rate_mask: u64) -> (r: SndStatus)
        ensures
            set_params_accepted(old(self).spec_state(), params, rate_mask, 0, 2, 2) ==> r == SndStatus::Success
                && final(self).spec_state() == PcmState::SetParams && final(self).spec_params() == Some(params),
            !set_params_accepted(old(self).spec_state(), params, rate_mask, 0, 2, 2) ==> r == SndStatus::BadMsg
                && *final(self) == *old(self),
    {
        self.set_params_with_profile(params, rate_mask, 0, 2, 2)
    }

    /// Apply SET_PARAMS against a stream-specific channel profile and rate mask, leaving the stream
    /// unchanged on rejection.
    pub fn set_params_with_profile(&mut self, params: PcmParams, rate_mask: u64, stream_id: u32, channels_min: u8, channels_max: u8) -> (r: SndStatus)
        ensures
            set_params_accepted(old(self).spec_state(), params, rate_mask, stream_id, channels_min, channels_max) ==> r == SndStatus::Success
                && final(self).spec_state() == PcmState::SetParams && final(self).spec_params() == Some(params),
            !set_params_accepted(old(self).spec_state(), params, rate_mask, stream_id, channels_min, channels_max) ==> r == SndStatus::BadMsg
                && *final(self) == *old(self),
    {
        let result = transition(self.state, PcmControl::SetParams);
        let rate_supported = params.rate < 64 && (rate_mask & (1u64 << params.rate)) != 0;
        if !matches!(result.status, SndStatus::Success) || !params.is_valid_for(stream_id, channels_min, channels_max) || !rate_supported {
            return SndStatus::BadMsg;
        }
        self.params = Some(params);
        self.state = result.next;
        SndStatus::Success
    }

    /// Apply one non-payload lifecycle request; a rejected request leaves the stream unchanged,
    /// an accepted RELEASE drops the parameters.
    pub fn apply(&mut self, request: PcmControl) -> (r: SndStatus)
        ensures
            r == oracle_status(old(self).spec_state(), request),
            r == SndStatus::BadMsg ==> *final(self) == *old(self),
            r == SndStatus::Success ==> final(self).spec_state() == next_state(old(self).spec_state(), request)
                && final(self).spec_params() == (if request == PcmControl::Release { None } else { old(self).spec_params() }),
    {
        let result = transition(self.state, request);
        if !matches!(result.status, SndStatus::Success) {
            return result.status;
        }
        self.state = result.next;
        if matches!(request, PcmControl::Release) {
            self.params = None;
        }
        result.status
    }

    /// Reset the stream to its power-on state.
    pub fn reset(&mut self)
        ensures final(self).spec_state() == PcmState::Released, final(self).spec_params() is None,
    {
        self.state = PcmState::Released;
        self.params = None;
    }
}

impl Default for PcmStream {
    fn default() -> (r: Self)
        ensures r.spec_state() == PcmState::Released, r.spec_params() is None,
    {
        PcmStream::new()
    }
}

/// An accepted lifecycle request other than INFO always changes the state; INFO never does.
pub proof fn lemma_accepted_requests_move(s: PcmState, r: PcmControl)
    ensures
        r == PcmControl::Info ==> next_state(s, r) == s && oracle_status(s, r) == SndStatus::Success,
        r != PcmControl::Info ==> (oracle_status(s, r) == SndStatus::Success <==> next_state(s, r) != s),
{
}

} // verus!

verus! {

/// The published oracle table is the state machine: cell `[state][request]` is the status the
/// stream answers `request` with in `state`.
pub proof fn lemma_oracle_table(s: PcmState, c: PcmControl)
    ensures PCM_TRANSITION_ORACLE@[state_index(s) as int]@[control_index(c)] == oracle_status(s, c),
{
    assert(PCM_TRANSITION_ORACLE@[0]@ =~= seq![SndStatus::Success, SndStatus::Success, SndStatus::BadMsg, SndStatus::BadMsg, SndStatus::BadMsg, SndStatus::BadMsg]);
    assert(PCM_TRANSITION_ORACLE@[1]@ =~= seq![SndStatus::Success, SndStatus::BadMsg, SndStatus::Success, SndStatus::BadMsg, SndStatus::BadMsg, SndStatus::BadMsg]);
    assert(PCM_TRANSITION_ORACLE@[2]@ =~= seq![SndStatus::Success, SndStatus::BadMsg, SndStatus::BadMsg, SndStatus::Success, SndStatus::BadMsg, SndStatus::Success]);
    assert(PCM_TRANSITION_ORACLE@[3]@ =~= seq![SndStatus::Success, SndStatus::BadMsg, SndStatus::BadMsg, SndStatus::BadMsg, SndStatus::Success, SndStatus::BadMsg]);
    assert(PCM_TRANSITION_ORACLE@[4]@ =~= seq![SndStatus::Success, SndStatus::BadMsg, SndStatus::BadMsg, SndStatus::Success, SndStatus::BadMsg, SndStatus::Success]);
}

} // verus!
