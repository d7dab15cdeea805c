//! Bus traits and type-state markers for the fault-injection subsystem.
//!
//! Scope: SPI, I2C, UART only.
//!
//! `ProtocolBus::Frame<'a>` is an associated type generic over a lifetime: the
//! returned snapshot borrows from the bus that produced it, and can never
//! outlive it.

use vstd::prelude::*;
use crate::fault::Protocol;

verus! {

/// Compile-time state marker: an injector that cannot fire.
#[derive(Debug)]
pub struct Disarmed;

/// Compile-time state marker: an injector that can fire.
#[derive(Debug)]
pub struct Armed;

/// A protocol bus that can expose a borrowed, read-only "frame" snapshot.
pub trait ProtocolBus {
    /// The protocol this bus carries.
    const PROTOCOL: Protocol;

    /// A borrowed snapshot of the current bus transaction.
    type Frame<'a> where Self: 'a;

    /// Borrow a snapshot of the current bus state for logging/inspection.
    fn frame<'a>(&'a self) -> Self::Frame<'a>;

    /// Sanity check on the bus state (e.g. CS active, clock healthy).
    fn validate(&self) -> bool;
}

// ─── SPI ──────────────────────────────────────────────────────────────────────

#[derive(Debug, Clone, Copy)]
pub struct SpiBus {
    pub sck: bool,
    pub mosi: u8,
    pub miso: u8,
    pub cs: bool,
}

#[derive(Debug)]
pub struct SpiFrame<'a> {
    pub sck: bool,
    pub mosi: &'a u8,
    pub miso: &'a u8,
    pub cs: bool,
}

impl ProtocolBus for SpiBus {
    const PROTOCOL: Protocol = Protocol::Spi;

    type Frame<'a> = SpiFrame<'a>;

    fn frame<'a>(&'a self) -> (f: SpiFrame<'a>)
        ensures
            f.sck == self.sck,
            *f.mosi == self.mosi,
            *f.miso == self.miso,
            f.cs == self.cs,
    {
        SpiFrame { sck: self.sck, mosi: &self.mosi, miso: &self.miso, cs: self.cs }
    }

    /// CS active and clock running.
    fn validate(&self) -> (ok: bool)
        ensures
            ok == (self.cs && self.sck),
    {
        self.cs && self.sck
    }
}

// ─── I2C ──────────────────────────────────────────────────────────────────────

#[derive(Debug, Clone, Copy)]
pub struct I2cBus {
    pub sda: bool,
    pub scl: bool,
    pub address: u8,
    pub data: u8,
}

#[derive(Debug)]
pub struct I2cFrame<'a> {
    pub sda: bool,
    pub scl: bool,
    pub address: &'a u8,
    pub data: &'a u8,
}

impl ProtocolBus for I2cBus {
    const PROTOCOL: Protocol = Protocol::I2c;

    type Frame<'a> = I2cFrame<'a>;

    fn frame<'a>(&'a self) -> (f: I2cFrame<'a>)
        ensures
            f.sda == self.sda,
            f.scl == self.scl,
            *f.address == self.address,
            *f.data == self.data,
    {
        I2cFrame { sda: self.sda, scl: self.scl, address: &self.address, data: &self.data }
    }

    /// Bus idle = both lines high.
    fn validate(&self) -> (ok: bool)
        ensures
            ok == (self.sda && self.scl),
    {
        self.sda && self.scl
    }
}

// ─── UART ─────────────────────────────────────────────────────────────────────

#[derive(Debug, Clone, Copy)]
pub struct UartBus {
    pub tx: u8,
    pub rx: u8,
}

#[derive(Debug)]
pub struct UartFrame<'a> {
    pub tx: &'a u8,
    pub rx: &'a u8,
}

impl ProtocolBus for UartBus {
    const PROTOCOL: Protocol = Protocol::Uart;

    type Frame<'a> = UartFrame<'a>;

    fn frame<'a>(&'a self) -> (f: UartFrame<'a>)
        ensures
            *f.tx == self.tx,
            *f.rx == self.rx,
    {
        UartFrame { tx: &self.tx, rx: &self.rx }
    }

    /// A UART line has no idle condition to check.
    fn validate(&self) -> (ok: bool)
        ensures
            ok,
    {
        true
    }
}

} // verus!
