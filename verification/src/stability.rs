//! Fault-injection stability check for the built-in self-test.
//!
//! Runs every injector against a simulated in-RAM bus and checks that the
//! result matches the configured fault type, before the firmware is trusted to
//! validate anything else.

use vstd::prelude::*;
use crate::fault::{FaultConfig, FaultResult, FaultType, I2cFaultInjector, Protocol, SpiFaultInjector, UartFaultInjector};
use crate::fault_traits::{I2cBus, SpiBus, UartBus};

verus! {

/// Result of the injector stability self-check.
#[derive(Debug, Clone, Copy)]
pub struct StabilityReport {
    /// Number of injectors that produced the expected frame on every fire.
    pub passed: u32,
    /// Number of injectors that misbehaved (wrong bit, missed injection, etc).
    pub failed: u32,
}

impl StabilityReport {
    pub fn ok(&self) -> (r: bool)
        ensures
            r == (self.failed == 0),
    {
        self.failed == 0
    }
}

fn report_passed(report: &mut StabilityReport, ok: bool)
    requires
        old(report).passed < u32::MAX,
        old(report).failed < u32::MAX,
    ensures
        ok ==> final(report).passed == old(report).passed + 1 && final(report).failed == old(report).failed,
        !ok ==> final(report).failed == old(report).failed + 1 && final(report).passed == old(report).passed,
{
    if ok {
        report.passed += 1;
    } else {
        report.failed += 1;
    }
}

/// The corruptions the self-check expects, byte by byte.
proof fn lemma_expected_corruptions()
    by (bit_vector)
    ensures
        0xA5u8 ^ 1u8 == 0xA4u8,
        0xA5u8 ^ (1u8 << (0u8 & 7)) == 0xA4u8,
        0x5Au8 ^ (1u8 << (0u8 & 7)) == 0x5Bu8,
        0xFFu8 & !0x08u8 == 0xF7u8,
        0xFFu8 & !(1u8 << (3u8 & 7)) == 0xF7u8,
        0x50u8 & !(1u8 << (3u8 & 7)) == 0x50u8,
        0x00u8 ^ 0x80u8 == 0x80u8,
        0x00u8 ^ (1u8 << (7u8 & 7)) == 0x80u8,
        0x55u8 ^ (1u8 << (7u8 & 7)) == 0xD5u8,
{
}

/// Run every injector through a `configure → arm → fire → disarm` cycle and
/// check that the fire produced the expected corruption.
///
/// Fire is always performed with `probability_permille = 1000` so the outcome
/// is deterministic: each injection must alter the frame. The check is that
/// the fire reported `Fired`, the injected counter moved, and the target bus
/// line carries exactly the expected corruption. Correct injectors pass all
/// three checks.
pub fn stability_check() -> (report: StabilityReport)
    ensures
        report.passed == 3,
        report.failed == 0,
{
    let mut report = StabilityReport { passed: 0, failed: 0 };

    // ── SPI: BitFlip at bit 0 on MOSI ─────────────────────────────────────
    let mut spi = SpiFaultInjector::new();
    spi.configure(&FaultConfig::new(Protocol::Spi, FaultType::BitFlip).at_bit(0).probability(1000));
    let mut armed_spi = spi.arm();
    let mut spi_bus = SpiBus { sck: true, mosi: 0xA5, miso: 0x5A, cs: true };
    let before = spi_bus.mosi;
    let res = armed_spi.fire(&mut spi_bus);
    let count = armed_spi.injected_count();
    let expected = before ^ 0x01;  // bit 0 flipped
    proof {
        lemma_expected_corruptions();
    }
    let ok = res == FaultResult::Fired && count > 0 && spi_bus.mosi == expected;
    report_passed(&mut report, ok);
    let _spi = armed_spi.disarm();

    // ── I2C: StuckAtZero on bit 3 of the data byte ─────────────────────────
    let mut i2c = I2cFaultInjector::new();
    i2c.configure(&FaultConfig::new(Protocol::I2c, FaultType::StuckAtZero).at_bit(3).probability(1000));
    let mut armed_i2c = i2c.arm();
    let mut i2c_bus = I2cBus { sda: true, scl: true, address: 0x50, data: 0xFF };
    let before = i2c_bus.data;
    let res = armed_i2c.fire(&mut i2c_bus);
    let count = armed_i2c.injected_count();
    let expected = before & !0x08;  // bit 3 cleared
    proof {
        lemma_expected_corruptions();
    }
    let ok = res == FaultResult::Fired && count > 0 && i2c_bus.data == expected;
    report_passed(&mut report, ok);
    let _i2c = armed_i2c.disarm();

    // ── UART: BitFlip on bit 7 of TX ────────────────────────────────────────
    let mut uart_inj = UartFaultInjector::new();
    uart_inj.configure(&FaultConfig::new(Protocol::Uart, FaultType::BitFlip).at_bit(7).probability(1000));
    let mut armed_uart = uart_inj.arm();
    let mut uart_bus = UartBus { tx: 0x00, rx: 0x55 };
    let before = uart_bus.tx;
    let res = armed_uart.fire(&mut uart_bus);
    let count = armed_uart.injected_count();
    let expected = before ^ 0x80;  // bit 7 flipped
    proof {
        lemma_expected_corruptions();
    }
    let ok = res == FaultResult::Fired && count > 0 && uart_bus.tx == expected;
    report_passed(&mut report, ok);
    let _uart = armed_uart.disarm();

    report
}

} // verus!
