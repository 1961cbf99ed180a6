//! The frozen `CpuState` linear-memory offsets shared with compiled blocks: the executor syncs
//! guest registers to `XREG_BASE` and reads the exit protocol back from `EXIT_*`.

use vstd::prelude::*;

verus! {

/// Base of the `x[0..32]` guest integer register array (each register 8 bytes).
pub const XREG_BASE: u32 = 0x000;
/// End of the integer-register array.
pub const XREG_END: u32 = XREG_BASE + 32 * 8;
/// `exit_reason`: the exit code the block wrote before returning.
pub const EXIT_REASON: u32 = 0x218;
/// `exit_pc`: the guest PC to resume at.
pub const EXIT_PC: u32 = 0x220;
/// `exit_info`: aux payload (trap cause for `ecall`/`ebreak`).
pub const EXIT_INFO: u32 = 0x228;
/// `entry_pc`: the guest virtual PC the block is entered at.
pub const ENTRY_PC: u32 = 0x230;
/// Exclusive end of the state transferred between a hart and a compiled module.
pub const HANDOFF_END: u32 = ENTRY_PC + 8;
/// Exact byte length of the one-call CPU-state handoff.
pub const HANDOFF_LEN: usize = 568;
/// Total retired instructions committed by the current in-module chain.
pub const CHAIN_RETIRED: u32 = HANDOFF_END;
/// Remaining guest-work fuel for an in-module chain.
pub const CHAIN_BUDGET: u32 = CHAIN_RETIRED + 8;
/// Import-side side-effect barrier flag.
pub const CHAIN_ABORT: u32 = CHAIN_BUDGET + 8;
/// Intra-module chaining flag, outside the frozen handoff.
pub const CHAIN_ENABLED: u32 = 0x250;
/// Count of raw inline-RAM stores waiting for the host-side commit.
pub const CHAIN_STORE_COUNT: u32 = CHAIN_ENABLED + 8;
/// Remaining compiled-block entries allowed in the current direct chain.
pub const CHAIN_DEPTH: u32 = CHAIN_STORE_COUNT + 8;
/// First `{virtual address, physical address, width}` raw-store record.
pub const CHAIN_STORE_BASE: u32 = CHAIN_DEPTH + 8;
/// Byte size of one raw-store record.
pub const CHAIN_STORE_ENTRY_BYTES: u32 = 24;
/// Bounded number of raw stores a direct-chain call can record.
pub const CHAIN_STORE_CAPACITY: u32 = 128;
/// Exclusive end of the auxiliary chain state retained beside the frozen handoff.
pub const CHAIN_STATE_END: u32 = CHAIN_STORE_BASE + CHAIN_STORE_ENTRY_BYTES * CHAIN_STORE_CAPACITY;

/// The handoff length is the span from the register array to the end of `entry_pc`.
pub proof fn lemma_handoff_len()
    ensures
        HANDOFF_LEN == HANDOFF_END - XREG_BASE,
        XREG_END == 0x100,
        HANDOFF_END == 0x238,
        HANDOFF_END < CHAIN_ENABLED,
        CHAIN_DEPTH == 0x260,
        CHAIN_STORE_BASE == 0x268,
{
}

} // verus!
