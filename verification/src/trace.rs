//! Retirement records: what one retired instruction did, handed to a [`TraceSink`].

use vstd::prelude::*;

verus! {

/// A memory operation performed by a retired load or store.
#[derive(Debug, Clone, Copy, PartialEq, Eq)]
pub struct MemOp {
    /// Effective address.
    pub addr: u64,
    /// Access width in bytes.
    pub len: u8,
    /// True for a store.
    pub is_store: bool,
    /// The full source register value for a store; 0 for a load.
    pub value: u64,
}

/// One retired instruction.
#[derive(Debug, Clone, Copy, PartialEq, Eq)]
pub struct TraceRecord {
    /// Address of the instruction.
    pub pc: u64,
    /// The raw instruction word.
    pub insn: u32,
    /// The register write, when the instruction wrote a register other than `x0`.
    pub rd: Option<(u8, u64)>,
    /// The memory operation, for loads and stores.
    pub mem: Option<MemOp>,
}

/// Receives one record per retired instruction (never for a trapping one).
pub trait TraceSink {
    /// The records this sink has kept, in the order handed over.
    spec fn kept(&self) -> Seq<TraceRecord>;

    /// Whether this sink keeps every record it is handed (a discarding sink does not).
    spec fn keeps_records() -> bool;

    fn retire(&mut self, rec: &TraceRecord)
        ensures Self::keeps_records() ==> final(self).kept() == old(self).kept().push(*rec);
}

/// A sink that discards every record.
pub struct NullSink;

impl TraceSink for NullSink {
    open spec fn kept(&self) -> Seq<TraceRecord> {
        Seq::empty()
    }

    open spec fn keeps_records() -> bool {
        false
    }

    fn retire(&mut self, rec: &TraceRecord) {
    }
}

/// A sink that keeps every record, in retirement order.
pub struct VecSink {
    pub records: Vec<TraceRecord>,
}

impl VecSink {
    /// An empty sink.
    pub fn new() -> (r: Self)
        ensures r.records@.len() == 0,
    {
        VecSink { records: Vec::new() }
    }
}

impl TraceSink for VecSink {
    open spec fn kept(&self) -> Seq<TraceRecord> {
        self.records@
    }

    open spec fn keeps_records() -> bool {
        true
    }

    fn retire(&mut self, rec: &TraceRecord)
        ensures final(self).records@ == old(self).records@.push(*rec),
    {
        self.records.push(*rec);
    }
}

} // verus!
