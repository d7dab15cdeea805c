use faultforge::fault::{
    bit_clear, bit_flip, bit_set, should_inject, FaultConfig, FaultResult, FaultType,
    I2cFaultInjector, Lfsr, Protocol, SpiFaultInjector, UartFaultInjector,
};
use faultforge::fault_traits::{Disarmed, I2cBus, ProtocolBus, SpiBus, UartBus};

// bit primitives

#[test]
fn bit_flip_toggles() {
    assert_eq!(bit_flip(0b1010_0000, 0), 0b1010_0001);
    assert_eq!(bit_flip(0b1010_0001, 0), 0b1010_0000);
    assert_eq!(bit_flip(0b0000_0000, 7), 0b1000_0000);
}

#[test]
fn bit_set_forces_high() {
    assert_eq!(bit_set(0b0000_0000, 3), 0b0000_1000);
    assert_eq!(bit_set(0b0000_1000, 3), 0b0000_1000);
}

#[test]
fn bit_clear_forces_low() {
    assert_eq!(bit_clear(0b1111_1111, 4), 0b1110_1111);
    assert_eq!(bit_clear(0b0000_0000, 4), 0b0000_0000);
}

#[test]
fn bit_wraps_on_overflow() {
    assert_eq!(bit_flip(0xFF, 8), 0xFE);
    assert_eq!(bit_flip(0xFF, 16), 0xFE);
}

// lfsr

#[test]
fn lfsr_produces_values() {
    let mut lfsr = Lfsr::new(0xACE1);
    let v1 = lfsr.next_state();
    let v2 = lfsr.next_state();
    assert_ne!(v1, 0);
    assert_ne!(v2, 0);
    assert_ne!(v1, v2);
}

#[test]
fn lfsr_next_bit_range() {
    let mut lfsr = Lfsr::new(42);
    for _ in 0..100 {
        assert!(lfsr.next_bit() < 8);
    }
}

#[test]
fn should_inject_full_permille() {
    let mut lfsr = Lfsr::new(1);
    for _ in 0..1000 {
        assert!(should_inject(&mut lfsr, 1000));
    }
}

#[test]
fn should_inject_zero_permille() {
    let mut lfsr = Lfsr::new(1);
    for _ in 0..1000 {
        assert!(!should_inject(&mut lfsr, 0));
    }
}

// type-state API (applies to all three injectors)

#[test]
fn spi_type_state_transitions() {
    let inj = SpiFaultInjector::<Disarmed>::new();
    let inj = inj.arm();
    assert!(inj.is_armed());
    let inj = inj.disarm();
    let _: SpiFaultInjector<Disarmed> = inj;
}

// SPI

#[test]
fn spi_bit_flip() {
    let cfg = FaultConfig::new(Protocol::Spi, FaultType::BitFlip).at_bit(0);
    let mut inj = SpiFaultInjector::new();
    inj.configure(&cfg);
    let mut inj = inj.arm();
    assert_eq!(inj.inject_mosi(0b1010_0000), 0b1010_0001);
}

#[test]
fn spi_stuck_at_zero() {
    let cfg = FaultConfig::new(Protocol::Spi, FaultType::StuckAtZero).at_bit(7);
    let mut inj = SpiFaultInjector::new();
    inj.configure(&cfg);
    let mut inj = inj.arm();
    assert_eq!(inj.inject_mosi(0xFF), 0x7F);
}

#[test]
fn spi_stuck_at_one() {
    let cfg = FaultConfig::new(Protocol::Spi, FaultType::StuckAtOne).at_bit(3);
    let mut inj = SpiFaultInjector::new();
    inj.configure(&cfg);
    let mut inj = inj.arm();
    assert_eq!(inj.inject_mosi(0x00), 0x08);
}

#[test]
fn spi_fire() {
    let cfg = FaultConfig::new(Protocol::Spi, FaultType::BitFlip).at_bit(0);
    let mut inj = SpiFaultInjector::new();
    inj.configure(&cfg);
    let mut inj = inj.arm();
    let mut bus = SpiBus { sck: true, mosi: 0xA5, miso: 0x5A, cs: true };
    assert_eq!(inj.fire(&mut bus), FaultResult::Fired);
    assert_eq!(bus.mosi, 0xA4);
    assert!(inj.is_armed());
}

#[test]
fn spi_ignores_wrong_protocol_config() {
    // Config guarded by protocol check -> defaults apply (BitFlip at bit 0).
    let cfg = FaultConfig::new(Protocol::Uart, FaultType::StuckAtZero).at_bit(3);
    let mut inj = SpiFaultInjector::new();
    inj.configure(&cfg); // wrong protocol -> ignored
    let mut inj = inj.arm();
    assert_eq!(inj.inject_mosi(0x00), 0x01); // default BitFlip@bit0, full probability
}

// I2C

#[test]
fn i2c_bit_flip_address() {
    let cfg = FaultConfig::new(Protocol::I2c, FaultType::BitFlip).at_bit(0);
    let mut inj = I2cFaultInjector::new();
    inj.configure(&cfg);
    let mut inj = inj.arm();
    assert_eq!(inj.inject_address(0x50), 0x51);
}

#[test]
fn i2c_stuck_at_zero_data() {
    let cfg = FaultConfig::new(Protocol::I2c, FaultType::StuckAtZero).at_bit(3);
    let mut inj = I2cFaultInjector::new();
    inj.configure(&cfg);
    let mut inj = inj.arm();
    assert_eq!(inj.inject_data(0xFF), 0xF7);
}

#[test]
fn i2c_bus_lockup_detection() {
    let cfg = FaultConfig::new(Protocol::I2c, FaultType::BusLockup);
    let mut inj = I2cFaultInjector::new();
    inj.configure(&cfg);
    let inj = inj.arm();
    assert!(inj.should_lock_bus());
}

#[test]
fn i2c_no_nack_when_bitflip() {
    let cfg = FaultConfig::new(Protocol::I2c, FaultType::BitFlip);
    let mut inj = I2cFaultInjector::new();
    inj.configure(&cfg);
    let inj = inj.arm();
    assert!(!inj.should_lock_bus());
}

#[test]
fn i2c_fire() {
    let cfg = FaultConfig::new(Protocol::I2c, FaultType::NackInjection);
    let mut inj = I2cFaultInjector::new();
    inj.configure(&cfg);
    let mut inj = inj.arm();
    let mut bus = I2cBus { sda: true, scl: true, address: 0x50, data: 0xAA };
    assert_eq!(inj.fire(&mut bus), FaultResult::Fired);
    assert_eq!(inj.injected_count(), 1);
}

// UART

#[test]
fn uart_bit_flip_tx() {
    let cfg = FaultConfig::new(Protocol::Uart, FaultType::BitFlip).at_bit(0);
    let mut inj = UartFaultInjector::new();
    inj.configure(&cfg);
    let mut inj = inj.arm();
    assert_eq!(inj.inject_tx(0b1010_0000), 0b1010_0001);
}

#[test]
fn uart_stuck_at_zero_rx() {
    let cfg = FaultConfig::new(Protocol::Uart, FaultType::StuckAtZero).at_bit(4);
    let mut inj = UartFaultInjector::new();
    inj.configure(&cfg);
    let mut inj = inj.arm();
    assert_eq!(inj.inject_rx(0xFF), 0xEF);
}

#[test]
fn uart_overrun() {
    let cfg = FaultConfig::new(Protocol::Uart, FaultType::Overrun);
    let mut inj = UartFaultInjector::new();
    inj.configure(&cfg);
    let mut inj = inj.arm();
    assert!(inj.inject_overrun());
    assert_eq!(inj.injected_count(), 1);
    let inj = inj.disarm();
    let _ = inj;
}

#[test]
fn uart_fire() {
    let cfg = FaultConfig::new(Protocol::Uart, FaultType::BitFlip).at_bit(0);
    let mut inj = UartFaultInjector::new();
    inj.configure(&cfg);
    let mut inj = inj.arm();
    let mut bus = UartBus { tx: 0xAA, rx: 0x55 };
    assert_eq!(inj.fire(&mut bus), FaultResult::Fired);
    assert_eq!(bus.tx, 0xAB);
    assert_eq!(bus.rx, 0x54);
}

// bus traits

#[test]
fn spi_bus_exposes_borrowed_frame() {
    let bus = SpiBus { sck: true, mosi: 0xA5, miso: 0x5A, cs: true };
    let frame = bus.frame(); // SpiFrame<'a> borrows from `bus`
    assert_eq!(*frame.mosi, 0xA5);
    assert!(bus.validate());
}

#[test]
fn i2c_bus_validate_idle() {
    let bus = I2cBus { sda: true, scl: true, address: 0x50, data: 0xAA };
    assert!(bus.validate());
    let busy = I2cBus { sda: false, scl: true, address: 0x50, data: 0xAA };
    assert!(!busy.validate());
}

#[test]
fn uart_bus_frame() {
    let bus = UartBus { tx: 0xAA, rx: 0x55 };
    let frame = bus.frame();
    assert_eq!(*frame.tx, 0xAA);
    assert_eq!(*frame.rx, 0x55);
}

// ---- further scenarios and laws on concrete values ----

#[test]
fn bit_flip_twice_restores() {
    for b in [0u8, 0x5A, 0xFF, 0x80] {
        for bit in 0u8..20 {
            assert_eq!(bit_flip(bit_flip(b, bit), bit), b);
            assert_eq!(bit_clear(bit_set(b, bit), bit), bit_clear(b, bit));
        }
    }
}

#[test]
fn lfsr_zero_seed_replaced_and_exact_step() {
    let mut a = Lfsr::new(0);
    let mut b = Lfsr::new(1);
    assert_eq!(a.next_state(), b.next_state());
    // from 0xACE1: feedback bit = s ^ s>>2 ^ s>>3 ^ s>>5 (bit 0) = 0
    let mut l = Lfsr::new(0xACE1);
    assert_eq!(l.next_state(), 0x5670);
}

#[test]
fn should_inject_partial_draws_from_lfsr() {
    // 500 permille: decision is (next & 0x3FF) < 500
    let mut l = Lfsr::new(0xACE1);
    let mut probe = Lfsr::new(0xACE1);
    let next = probe.next_state();
    assert_eq!(should_inject(&mut l, 500), (next & 0x03FF) < 500);
    // the register moved exactly one step
    assert_eq!(l.next_state(), probe.next_state());
}

#[test]
fn spi_miso_and_counter() {
    let cfg = FaultConfig::new(Protocol::Spi, FaultType::StuckAtOne).at_bit(1);
    let mut inj = SpiFaultInjector::default();
    inj.configure(&cfg);
    let mut inj = inj.arm();
    assert_eq!(inj.inject_miso(0x00), 0x02);
    assert_eq!(inj.injected_count(), 1);
    // already high: unchanged and not counted
    assert_eq!(inj.inject_miso(0x02), 0x02);
    assert_eq!(inj.injected_count(), 1);
    inj.reset_stats();
    assert_eq!(inj.injected_count(), 0);
}

#[test]
fn zero_probability_injects_nothing() {
    let cfg = FaultConfig::new(Protocol::Uart, FaultType::BitFlip).probability(0);
    let mut inj = UartFaultInjector::new();
    inj.configure(&cfg);
    let mut inj = inj.arm();
    for b in 0u8..=255 {
        assert_eq!(inj.inject_tx(b), b);
        assert_eq!(inj.inject_rx(b), b);
    }
    assert!(!inj.inject_overrun());
    assert_eq!(inj.injected_count(), 0);
}

#[test]
fn uart_parity_error_flips_top_bit() {
    let cfg = FaultConfig::new(Protocol::Uart, FaultType::ParityError);
    let mut inj = UartFaultInjector::new();
    inj.configure(&cfg);
    let mut inj = inj.arm();
    assert_eq!(inj.inject_tx(0x01), 0x81);
    assert_eq!(inj.injected_count(), 1);
}

#[test]
fn i2c_address_random_bit_stays_in_seven_bits() {
    // target bit 7 is out of range for a 7-bit address: a random bit < 7 is hit
    let cfg = FaultConfig::new(Protocol::I2c, FaultType::BitFlip).at_bit(7);
    let mut inj = I2cFaultInjector::new();
    inj.configure(&cfg);
    let mut inj = inj.arm();
    for _ in 0..50 {
        let r = inj.inject_address(0x00);
        assert_eq!(r & 0x80, 0);
        assert_eq!(r.count_ones(), 1);
    }
}

#[test]
fn i2c_should_nack_only_for_nack_injection() {
    let mut inj = I2cFaultInjector::new().arm();
    // default configuration is NACK injection at full probability
    assert!(inj.should_nack());
    let cfg = FaultConfig::new(Protocol::I2c, FaultType::StuckAtOne);
    let mut d = I2cFaultInjector::new();
    d.configure(&cfg);
    let mut d = d.arm();
    assert!(!d.should_nack());
}

#[test]
fn config_builders_set_fields() {
    let c = FaultConfig::new(Protocol::I2c, FaultType::BitDelay)
        .at_bit(5)
        .probability(250)
        .duration(40);
    assert_eq!(c.protocol, Protocol::I2c);
    assert_eq!(c.fault_type, FaultType::BitDelay);
    assert_eq!(c.target_bit, 5);
    assert_eq!(c.probability_permille, 250);
    assert_eq!(c.duration_us, 40);
    let d = FaultConfig::new(Protocol::Spi, FaultType::BitFlip);
    assert_eq!(d.target_bit, 0);
    assert_eq!(d.probability_permille, 1000);
    assert_eq!(d.duration_us, 0);
}

#[test]
fn bus_protocol_constants() {
    assert_eq!(SpiBus::PROTOCOL, Protocol::Spi);
    assert_eq!(I2cBus::PROTOCOL, Protocol::I2c);
    assert_eq!(UartBus::PROTOCOL, Protocol::Uart);
    let spi_idle = SpiBus { sck: false, mosi: 0, miso: 0, cs: true };
    assert!(!spi_idle.validate());
}

#[test]
fn lfsr_stream_never_zero_and_zero_seed_matches_one() {
    let mut a = Lfsr::new(0);
    let mut b = Lfsr::new(1);
    for _ in 0..5000 {
        let x = a.next_state();
        assert_ne!(x, 0);
        assert_eq!(x, b.next_state());
    }
}
