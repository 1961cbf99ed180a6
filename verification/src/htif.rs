//! The Berkeley HTIF `tohost` exit convention, consulted by the runner after each retired store.
//!
//! `tohost` is a 64-bit doubleword in guest memory. A write of `(code << 1) | 1` requests exit
//! with status `code`; a non-zero write with the low bit clear is a device command that is not
//! supported and never treated as exit. [`Htif::check`] reads the full 64-bit word whatever the
//! width of the store that changed it.

use vstd::prelude::*;
use crate::bus::Bus;

verus! {

/// A decoded guest-requested exit.
#[derive(Debug, Clone, Copy, PartialEq, Eq)]
pub struct Exit {
    pub code: u64,
}

/// Watches the guest's `tohost` doubleword for the exit convention.
#[derive(Debug, Clone, Copy)]
pub struct Htif {
    tohost: u64,
}

/// What a `tohost` word encodes.
#[derive(Debug, Clone, Copy, PartialEq, Eq)]
pub enum HtifStatus {
    /// Zero: nothing pending.
    Idle,
    /// `(code << 1) | 1`: the guest requested exit with `code`.
    Exit(Exit),
    /// A non-zero value with the low bit clear: an unsupported device command.
    Command(u64),
}

/// The status a raw `tohost` word decodes to.
pub open spec fn decode_spec(v: u64) -> HtifStatus {
    if v == 0 {
        HtifStatus::Idle
    } else if v & 1 == 1 {
        HtifStatus::Exit(Exit { code: v >> 1 })
    } else {
        HtifStatus::Command(v)
    }
}

/// The raw word a status came from (0 for `Idle`).
pub open spec fn raw_spec(s: HtifStatus) -> u64 {
    match s {
        HtifStatus::Idle => 0,
        HtifStatus::Exit(e) => (e.code << 1) | 1,
        HtifStatus::Command(v) => v,
    }
}

impl Htif {
    /// The watched address.
    pub closed spec fn addr(&self) -> u64 {
        self.tohost
    }

    /// Watch `tohost_addr`.
    pub fn new(tohost_addr: u64) -> (r: Self)
        ensures r.addr() == tohost_addr,
    {
        Htif { tohost: tohost_addr }
    }

    /// The watched address.
    pub fn tohost(&self) -> (r: u64)
        ensures r == self.addr(),
    {
        self.tohost
    }

    /// Read and decode the current `tohost` word. A bus fault decodes as `Idle`: such a machine
    /// simply never exits through HTIF.
    pub fn check<B: Bus>(&self, bus: &mut B) -> (r: HtifStatus)
        ensures
            r == (match old(bus).load_value(self.addr(), 8) {
                Ok(v) => decode_spec(v),
                Err(_) => HtifStatus::Idle,
            }),
            old(bus).load_post(final(bus), self.addr(), 8),
    {
        match bus.load64(self.tohost) {
            Ok(v) => HtifStatus::decode(v),
            Err(_) => HtifStatus::Idle,
        }
    }
}

impl HtifStatus {
    /// Decode a raw `tohost` doubleword.
    pub fn decode(v: u64) -> (r: Self)
        ensures r == decode_spec(v),
    {
        if v == 0 {
            HtifStatus::Idle
        } else if v & 1 == 1 {
            HtifStatus::Exit(Exit { code: v >> 1 })
        } else {
            HtifStatus::Command(v)
        }
    }

    /// The raw doubleword this status came from (0 for `Idle`, the reconstructed value
    /// otherwise).
    pub fn raw_or_zero(self) -> (r: u64)
        ensures r == raw_spec(self),
    {
        match self {
            HtifStatus::Idle => 0,
            HtifStatus::Exit(e) => (e.code << 1) | 1,
            HtifStatus::Command(v) => v,
        }
    }
}

/// Decoding a word and reconstructing it gives the word back.
pub proof fn lemma_decode_roundtrip(v: u64)
    ensures raw_spec(decode_spec(v)) == v,
{
    if v != 0 && v & 1 == 1 {
        assert(v & 1 == 1 ==> ((v >> 1) << 1) | 1 == v) by (bit_vector);
    }
}

} // verus!
