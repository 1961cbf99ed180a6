use vstd::prelude::*;

pub mod boot;
pub mod bus;
pub mod decode;
pub mod dev;
pub mod fdt;
pub mod diag;
pub mod dispatch;
pub mod hart;
pub mod htif;
pub mod jit;
pub mod loader;
pub mod machine;
pub mod mmio;
pub mod mmu;
pub mod ram;
pub mod resume;
pub mod sbi;
pub mod text;
pub mod trace;
pub mod platform;
pub mod pmp;
pub mod prof;

pub use machine::{kernel_image_footprint, ExitReason, Machine, RunOutcome, SnapshotCoherence};
pub use boot::{BootError, BootLayout};

verus! {

/// The crate version.
pub fn version() -> (r: &'static str)
    ensures r@ == "0.0.1"@,
{
    "0.0.1"
}

} // verus!
