//! faultforge: the wire protocol, fault injectors and detection logic of a
//! hardware-in-the-loop fault-injection bench, with their contracts.

pub mod fault;
pub mod fault_traits;
pub mod parser;
pub mod protocol;
pub mod stability;
pub mod bist;
pub mod canary;
pub mod glitch;
pub mod telemetry;
pub mod usb;
pub mod dut;
pub mod campaign;
pub mod tally;
pub mod sim;
pub mod crypto;
pub mod report;
pub mod args;
pub mod ports;
pub mod session;
