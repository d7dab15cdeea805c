//! Telemetry loopback: the internal reference voltage and the junction
//! temperature derived from it, with their sanity checks.

use vstd::prelude::*;

verus! {

/// Expected VREFINT, in counts, for a 12-bit ADC at 3.3 V.
/// Datasheet VREFINT = 1.21 V typical -> 1.21/3.3 * 4095 ≈ 1502 counts.
pub const VREFINT_EXPECTED: u16 = 1502;
/// How far VREFINT may drift from nominal before it is flagged.
pub const VREFINT_TOL: u16 = 200;
/// Plausible junction temperature bounds (°C).
pub const TEMP_MIN_C: i32 = -25;
pub const TEMP_MAX_C: i32 = 125;

/// Result of the telemetry-loopback capture.
#[derive(Debug, Clone, Copy)]
pub struct TelemetryLoopback {
    pub vrefint_counts: u16,
    pub vrefint_mv: u32,
    pub temp_c: i32,
}

/// Integer division rounding toward zero, as the target computes it.
pub open spec fn div_toward_zero(a: int, b: int) -> int {
    if a >= 0 {
        a / b
    } else {
        -((-a) / b)
    }
}

/// Millivolts of a 12-bit reading against a 3.3 V reference.
pub open spec fn counts_to_mv(counts: u16) -> int {
    (counts * 3300) / 4095
}

/// Junction temperature from the sensed voltage: T = 25 - (V - 760 mV) / 2.5 mV/°C,
/// or 0 when the reading is implausibly low.
pub open spec fn mv_to_temp_c(mv: int) -> int {
    if mv > 700 {
        25 - div_toward_zero((mv - 760) * 10, 25)
    } else {
        0
    }
}

impl TelemetryLoopback {
    /// Derive millivolts and temperature from a raw VREFINT reading.
    pub fn from_vrefint_counts(vrefint_counts: u16) -> (t: Self)
        ensures
            t.vrefint_counts == vrefint_counts,
            t.vrefint_mv == counts_to_mv(vrefint_counts),
            t.temp_c == mv_to_temp_c(t.vrefint_mv as int),
    {
        let vrefint_mv = (vrefint_counts as u32 * 3300) / 4095;
        assert(vrefint_mv <= 52812);
        let temp_c = if vrefint_mv > 700 {
            let d: i32 = (vrefint_mv as i32 - 760) * 10;
            let q: i32 = d / 25;
            assert(q == div_toward_zero(d as int, 25));
            25 - q
        } else {
            0
        };
        TelemetryLoopback { vrefint_counts, vrefint_mv, temp_c }
    }

    pub fn vrefint_ok(&self) -> (r: bool)
        ensures
            r == (-(VREFINT_TOL as int) <= self.vrefint_counts - VREFINT_EXPECTED <= VREFINT_TOL),
    {
        let d = if self.vrefint_counts >= VREFINT_EXPECTED {
            self.vrefint_counts - VREFINT_EXPECTED
        } else {
            VREFINT_EXPECTED - self.vrefint_counts
        };
        d <= VREFINT_TOL
    }

    pub fn temp_ok(&self) -> (r: bool)
        ensures
            r == (TEMP_MIN_C <= self.temp_c <= TEMP_MAX_C),
    {
        self.temp_c >= TEMP_MIN_C && self.temp_c <= TEMP_MAX_C
    }

    pub fn ok(&self) -> (r: bool)
        ensures
            r == ((-(VREFINT_TOL as int) <= self.vrefint_counts - VREFINT_EXPECTED <= VREFINT_TOL)
                && TEMP_MIN_C <= self.temp_c <= TEMP_MAX_C),
    {
        self.vrefint_ok() && self.temp_ok()
    }
}

} // verus!
