//! Host link commands and the replies the device gives to them.

use vstd::prelude::*;

verus! {

/// Wire command bytes the host may send.
#[derive(Debug, Clone, Copy, PartialEq, Eq, Structural)]
pub enum HostCommand {
    QueryBist,
    StartStream,
    StopStream,
    QueryTelemetry,
}

/// The byte that carries each command on the wire.
pub open spec fn command_byte(c: HostCommand) -> u8 {
    match c {
        HostCommand::QueryBist => 0x01,
        HostCommand::StartStream => 0x02,
        HostCommand::StopStream => 0x03,
        HostCommand::QueryTelemetry => 0x04,
    }
}

/// The command a wire byte carries, if any.
pub open spec fn command_of(b: u8) -> Option<HostCommand> {
    if b == 0x01 {
        Some(HostCommand::QueryBist)
    } else if b == 0x02 {
        Some(HostCommand::StartStream)
    } else if b == 0x03 {
        Some(HostCommand::StopStream)
    } else if b == 0x04 {
        Some(HostCommand::QueryTelemetry)
    } else {
        None
    }
}

/// First byte of a telemetry reply.
pub const TELEMETRY_REPLY_TAG: u8 = 0x84;

impl HostCommand {
    pub fn parse(b: u8) -> (r: Option<Self>)
        ensures
            r == command_of(b),
    {
        match b {
            0x01 => Some(Self::QueryBist),
            0x02 => Some(Self::StartStream),
            0x03 => Some(Self::StopStream),
            0x04 => Some(Self::QueryTelemetry),
            _ => None,
        }
    }

    /// The wire byte of this command.
    pub fn byte(&self) -> (b: u8)
        ensures
            b == command_byte(*self),
    {
        match self {
            HostCommand::QueryBist => 0x01,
            HostCommand::StartStream => 0x02,
            HostCommand::StopStream => 0x03,
            HostCommand::QueryTelemetry => 0x04,
        }
    }
}

/// Every command parses back from its own wire byte, and every byte that
/// parses is the wire byte of what it parses to.
pub proof fn lemma_command_roundtrip(c: HostCommand, b: u8)
    ensures
        command_of(command_byte(c)) == Some(c),
        command_of(b) matches Some(d) ==> command_byte(d) == b,
{
}

/// The reply the device sends for command byte `cmd`: the BIST code for a BIST
/// query, the tag and the eight telemetry bytes for a telemetry query, and
/// nothing for stream control or unknown commands.
pub fn host_reply(cmd: u8, bist_code: u8, telemetry: &[u8; 8]) -> (r: Option<Vec<u8>>)
    ensures
        cmd == 0x01 ==> (r matches Some(v) && v@ == seq![bist_code]),
        cmd == 0x04 ==> (r matches Some(v) && v@ == seq![TELEMETRY_REPLY_TAG] + telemetry@),
        cmd != 0x01 && cmd != 0x04 ==> r is None,
{
    match HostCommand::parse(cmd) {
        Some(HostCommand::QueryBist) => {
            let mut v = Vec::new();
            v.push(bist_code);
            assert(v@ =~= seq![bist_code]);
            Some(v)
        },
        Some(HostCommand::QueryTelemetry) => {
            let mut msg = Vec::new();
            msg.push(TELEMETRY_REPLY_TAG);
            let mut i: usize = 0;
            while i < 8
                invariant
                    i <= 8,
                    msg@ == seq![TELEMETRY_REPLY_TAG] + telemetry@.take(i as int),
                decreases 8 - i,
            {
                msg.push(telemetry[i]);
                i = i + 1;
                assert(msg@ =~= seq![TELEMETRY_REPLY_TAG] + telemetry@.take(i as int));
            }
            assert(telemetry@.take(8) =~= telemetry@);
            Some(msg)
        },
        Some(HostCommand::StartStream) | Some(HostCommand::StopStream) => None,
        None => None,
    }
}

} // verus!
