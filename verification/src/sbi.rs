//! SBI dispatch: the emulator-as-firmware entry point for `ecall` from S-mode.
//!
//! Every extension ID, known or unknown, answers [`SBI_ERR_NOT_SUPPORTED`] (the probe answer
//! the SBI specification mandates) rather than trapping or panicking, so a kernel probing
//! extensions degrades gracefully.

use vstd::prelude::*;

verus! {

/// SBI return pair: `a0` = error, `a1` = value.
#[derive(Debug, Clone, Copy, PartialEq, Eq)]
pub struct SbiRet {
    pub error: i64,
    pub value: i64,
}

pub const SBI_SUCCESS: i64 = 0;
pub const SBI_ERR_FAILED: i64 = -1;
pub const SBI_ERR_NOT_SUPPORTED: i64 = -2;
pub const SBI_ERR_INVALID_PARAM: i64 = -3;
pub const SBI_ERR_DENIED: i64 = -4;
pub const SBI_ERR_INVALID_ADDRESS: i64 = -5;
pub const SBI_ERR_ALREADY_AVAILABLE: i64 = -6;

/// Base extension.
pub const EID_BASE: u64 = 0x10;
/// Debug Console extension ("DBCN").
pub const EID_DBCN: u64 = 0x4442434E;
/// Timer extension ("TIME").
pub const EID_TIME: u64 = 0x54494D45;
/// Inter-processor interrupts ("sPI").
pub const EID_IPI: u64 = 0x0073_5049;
/// Remote fences ("RFNC").
pub const EID_RFENCE: u64 = 0x5246_4E43;
/// Hart state management ("HSM").
pub const EID_HSM: u64 = 0x0048_534D;
/// Legacy console putchar.
pub const EID_LEGACY_PUTCHAR: u64 = 0x01;
/// Legacy console getchar.
pub const EID_LEGACY_GETCHAR: u64 = 0x02;

impl SbiRet {
    /// The `NOT_SUPPORTED` answer.
    pub fn not_supported() -> (r: Self)
        ensures r.error == SBI_ERR_NOT_SUPPORTED, r.value == 0,
    {
        SbiRet { error: SBI_ERR_NOT_SUPPORTED, value: 0 }
    }
}

/// One SBI call: `eid` from `a7`, `fid` from `a6`, `args` from `a0..a5`. Every call answers
/// `NOT_SUPPORTED`.
pub fn dispatch(eid: u64, fid: u64, args: &[u64; 6]) -> (r: SbiRet)
    ensures r.error == SBI_ERR_NOT_SUPPORTED, r.value == 0,
{
    if eid == EID_BASE || eid == EID_DBCN || eid == EID_TIME || eid == EID_IPI || eid == EID_RFENCE
        || eid == EID_HSM {
        SbiRet::not_supported()
    } else if eid == EID_LEGACY_PUTCHAR || eid == EID_LEGACY_GETCHAR {
        SbiRet::not_supported()
    } else {
        SbiRet::not_supported()
    }
}

} // verus!
