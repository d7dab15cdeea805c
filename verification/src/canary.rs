//! Stack canary: detects stack overflow into the last word of RAM.

use vstd::prelude::*;

verus! {

/// Value placed at the end of RAM.
pub const CANARY_VALUE: u32 = 0xDEAD_BEEF;

/// Address of the canary word: the last word of the 96 KiB SRAM.
pub const CANARY_ADDR: u32 = 0x2001_7FFC;

/// Whether the word read back from the canary address is still the canary:
/// the comparison of the boot-time check, on the value the firmware reads.
pub fn check(raw: u32) -> (ok: bool)
    ensures
        ok == (raw == CANARY_VALUE),
{
    raw == CANARY_VALUE
}

/// Canary address, for debugging.
pub fn address() -> (a: u32)
    ensures
        a == CANARY_ADDR,
{
    CANARY_ADDR
}

} // verus!
