//! Diagnostics.

pub mod irqstats;
