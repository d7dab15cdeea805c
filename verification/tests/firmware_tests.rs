use faultforge::bist::{run, BistResult, HealthError};
use faultforge::canary::{address, check, CANARY_ADDR, CANARY_VALUE};
use faultforge::glitch::ClockGlitch;
use faultforge::stability::{stability_check, StabilityReport};
use faultforge::telemetry::TelemetryLoopback;
use faultforge::usb::{host_reply, HostCommand, TELEMETRY_REPLY_TAG};

#[test]
fn stability_check_passes_every_injector() {
    let r = stability_check();
    assert_eq!(r.passed, 3);
    assert_eq!(r.failed, 0);
    assert!(r.ok());
}

#[test]
fn bist_codes_for_each_verdict() {
    assert_eq!(BistResult::Pass.code(), 0x00);
    assert!(BistResult::Pass.ok());
    let errs = [
        (HealthError::StackCanary, 0x01),
        (HealthError::RamTest, 0x02),
        (HealthError::TimerNotTicking, 0x03),
        (HealthError::ClockOutOfRange, 0x04),
        (HealthError::ClockHclkNotRunning, 0x05),
    ];
    for (e, c) in errs {
        let r = BistResult::Fail(e);
        assert_eq!(r.code(), c);
        assert!(!r.ok());
    }
    let good = BistResult::FaultStability(StabilityReport { passed: 3, failed: 0 });
    assert_eq!(good.code(), 0x10);
    assert!(!good.ok());
    let bad = BistResult::FaultStability(StabilityReport { passed: 2, failed: 1 });
    assert_eq!(bad.code(), 0x11);
}

#[test]
fn canary_address_is_last_ram_word() {
    assert_eq!(address(), 0x2001_7FFC);
    assert_eq!(address(), CANARY_ADDR);
    assert_eq!(CANARY_VALUE, 0xDEAD_BEEF);
}

#[test]
fn clock_glitch_builds_and_updates() {
    let mut g = ClockGlitch::new();
    g.set_duration(250);
}

#[test]
fn telemetry_from_nominal_vrefint() {
    let t = TelemetryLoopback::from_vrefint_counts(1502);
    assert_eq!(t.vrefint_counts, 1502);
    // 1502 * 3300 / 4095 = 1210 mV
    assert_eq!(t.vrefint_mv, 1210);
    // 25 - (1210 - 760) * 10 / 25 = -155
    assert_eq!(t.temp_c, -155);
    assert!(t.vrefint_ok());
    assert!(!t.temp_ok());
    assert!(!t.ok());
}

#[test]
fn telemetry_low_reading_and_rounding() {
    // below 700 mV the temperature is reported as 0
    let t = TelemetryLoopback::from_vrefint_counts(100);
    assert_eq!(t.vrefint_mv, 80);
    assert_eq!(t.temp_c, 0);
    assert!(!t.vrefint_ok());
    assert!(t.temp_ok());
    // 900 counts: 725 mV, (725-760)*10/25 = -14 (toward zero) -> 39 C
    let u = TelemetryLoopback::from_vrefint_counts(900);
    assert_eq!(u.vrefint_mv, 725);
    assert_eq!(u.temp_c, 39);
    assert!(u.temp_ok());
    // tolerance edges
    let lo = TelemetryLoopback { vrefint_counts: 1302, vrefint_mv: 0, temp_c: 0 };
    assert!(lo.vrefint_ok());
    let below = TelemetryLoopback { vrefint_counts: 1301, vrefint_mv: 0, temp_c: 0 };
    assert!(!below.vrefint_ok());
    let hi = TelemetryLoopback { vrefint_counts: 1702, vrefint_mv: 0, temp_c: 125 };
    assert!(hi.ok());
}

#[test]
fn host_command_parse_and_byte_roundtrip() {
    for c in [
        HostCommand::QueryBist,
        HostCommand::StartStream,
        HostCommand::StopStream,
        HostCommand::QueryTelemetry,
    ] {
        assert_eq!(HostCommand::parse(c.byte()), Some(c));
    }
    assert_eq!(HostCommand::parse(0x00), None);
    assert_eq!(HostCommand::parse(0x05), None);
    assert_eq!(HostCommand::QueryTelemetry.byte(), 0x04);
}

#[test]
fn host_reply_per_command() {
    let tel = [1u8, 2, 3, 4, 5, 6, 7, 8];
    assert_eq!(host_reply(0x01, 0x10, &tel), Some(vec![0x10]));
    assert_eq!(
        host_reply(0x04, 0x00, &tel),
        Some(vec![TELEMETRY_REPLY_TAG, 1, 2, 3, 4, 5, 6, 7, 8])
    );
    assert_eq!(host_reply(0x02, 0x00, &tel), None);
    assert_eq!(host_reply(0x03, 0x00, &tel), None);
    assert_eq!(host_reply(0x99, 0x00, &tel), None);
}

#[test]
fn bist_run_reports_first_failure() {
    assert!(matches!(run(true, None, None), BistResult::Pass));
    assert!(run(true, None, None).ok());
    assert!(matches!(
        run(false, Some(HealthError::RamTest), None),
        BistResult::Fail(HealthError::StackCanary)
    ));
    assert!(matches!(
        run(true, Some(HealthError::RamTest), Some(HealthError::ClockOutOfRange)),
        BistResult::Fail(HealthError::RamTest)
    ));
    assert!(matches!(
        run(true, None, Some(HealthError::ClockHclkNotRunning)),
        BistResult::Fail(HealthError::ClockHclkNotRunning)
    ));
    assert_eq!(run(true, None, Some(HealthError::TimerNotTicking)).code(), 0x03);
}

#[test]
fn canary_check_compares_with_canary_value() {
    assert!(check(0xDEAD_BEEF));
    assert!(!check(0));
    assert!(!check(0xDEAD_BEEE));
}
