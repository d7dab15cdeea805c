//! Built-in self-test verdict and its single-byte wire encoding.

use vstd::prelude::*;
use crate::stability::{stability_check, StabilityReport};

verus! {

/// Why a health check failed.
#[derive(Debug, Clone, Copy, PartialEq, Eq, Structural)]
pub enum HealthError {
    StackCanary,
    RamTest,
    TimerNotTicking,
    ClockOutOfRange,
    ClockHclkNotRunning,
}

/// Compact report the host can read over USB CDC.
#[derive(Debug, Clone, Copy)]
pub enum BistResult {
    Pass,
    Fail(HealthError),
    FaultStability(StabilityReport),
}

/// The wire code of a BIST verdict.
pub open spec fn bist_code(r: BistResult) -> u8 {
    match r {
        BistResult::Pass => 0x00,
        BistResult::Fail(e) => match e {
            HealthError::StackCanary => 0x01,
            HealthError::RamTest => 0x02,
            HealthError::TimerNotTicking => 0x03,
            HealthError::ClockOutOfRange => 0x04,
            HealthError::ClockHclkNotRunning => 0x05,
        },
        BistResult::FaultStability(r) => if r.failed == 0 {
            0x10
        } else {
            0x11
        },
    }
}

impl BistResult {
    pub fn ok(&self) -> (r: bool)
        ensures
            r == (*self is Pass),
            r == (bist_code(*self) == 0),
    {
        match self {
            BistResult::Pass => true,
            _ => false,
        }
    }

    /// Single byte wire encoding for the host.
    pub fn code(&self) -> (c: u8)
        ensures
            c == bist_code(*self),
    {
        match self {
            BistResult::Pass => 0x00,
            BistResult::Fail(e) => match e {
                HealthError::StackCanary => 0x01,
                HealthError::RamTest => 0x02,
                HealthError::TimerNotTicking => 0x03,
                HealthError::ClockOutOfRange => 0x04,
                HealthError::ClockHclkNotRunning => 0x05,
            },
            BistResult::FaultStability(r) => {
                if r.ok() {
                    0x10
                } else {
                    0x11
                }
            },
        }
    }
}

/// The BIST verdict from the health checks' readings, in boot order: the
/// stack canary readback, the RAM pattern test and the clock tree (each
/// `None` when it passed, else the failure), then the fault-injector
/// stability check, which runs only when the silicon checks passed. The first
/// failure is the verdict.
pub fn run(canary_ready: bool, ram: Option<HealthError>, clock: Option<HealthError>) -> (r: BistResult)
    ensures
        !canary_ready ==> r == BistResult::Fail(HealthError::StackCanary),
        canary_ready && ram is Some ==> r == BistResult::Fail(ram->0),
        canary_ready && ram is None && clock is Some ==> r == BistResult::Fail(clock->0),
        canary_ready && ram is None && clock is None ==> r is Pass,
{
    if !canary_ready {
        return BistResult::Fail(HealthError::StackCanary);
    }
    if let Some(e) = ram {
        return BistResult::Fail(e);
    }
    if let Some(e) = clock {
        return BistResult::Fail(e);
    }
    let stability = stability_check();
    if !stability.ok() {
        return BistResult::FaultStability(stability);
    }
    BistResult::Pass
}

/// Distinct verdicts have distinct wire codes, so the host can tell them apart.
pub proof fn lemma_bist_code_injective(a: BistResult, b: BistResult)
    requires
        bist_code(a) == bist_code(b),
    ensures
        (a is Pass) == (b is Pass),
        (a is Fail) == (b is Fail),
        (a is FaultStability) == (b is FaultStability),
        a is Fail ==> a->Fail_0 == b->Fail_0,
        a is FaultStability ==> (a->FaultStability_0.failed == 0) == (b->FaultStability_0.failed
            == 0),
{
}

} // verus!
