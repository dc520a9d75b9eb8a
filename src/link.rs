use vstd::prelude::*;

use crate::cycle::StimulusState;

verus! {

/// The command that the host sends to the bridge device for one frame.
#[derive(Clone, Copy, Debug, PartialEq, Eq, Structural)]
pub enum TriggerCommand {
    Assert,
    Deassert,
}

/// The command that goes with a stimulus state: assert exactly while the
/// stimulus is shown.
pub open spec fn command_of(state: StimulusState) -> TriggerCommand {
    match state {
        StimulusState::Stimulus => TriggerCommand::Assert,
        StimulusState::Background => TriggerCommand::Deassert,
    }
}

/// The byte that carries a command on the wire from the host.
pub open spec fn wire_byte_of(cmd: TriggerCommand) -> u8 {
    match cmd {
        TriggerCommand::Assert => 0x01,
        TriggerCommand::Deassert => 0x00,
    }
}

pub fn command_for(state: StimulusState) -> (r: TriggerCommand)
    ensures
        r == command_of(state),
{
    match state {
        StimulusState::Stimulus => TriggerCommand::Assert,
        StimulusState::Background => TriggerCommand::Deassert,
    }
}

impl TriggerCommand {
    /// The single byte written to the link for this command.
    pub fn wire_byte(&self) -> (r: u8)
        ensures
            r == wire_byte_of(*self),
    {
        match self {
            TriggerCommand::Assert => 0x01,
            TriggerCommand::Deassert => 0x00,
        }
    }
}

/// Why a command could not be delivered over the link.
#[derive(Clone, Copy, Debug, PartialEq, Eq, Structural)]
pub enum LinkError {
    /// The transport accepted a number of bytes other than one.
    WrongByteCount { written: usize },
    /// The transport reported an error on write or flush.
    Transport,
}

/// What a write of one command byte must have reported to count as delivered.
pub open spec fn write_verdict(written: Result<usize, LinkError>) -> Result<(), LinkError> {
    match written {
        Ok(n) => if n == 1 {
            Ok(())
        } else {
            Err(LinkError::WrongByteCount { written: n })
        },
        Err(e) => Err(e),
    }
}

/// Checks what the transport reported for a one-byte write: exactly one byte
/// written is success; any other count, or an error, is a `LinkError`.
pub fn check_write(written: Result<usize, LinkError>) -> (r: Result<(), LinkError>)
    ensures
        r == write_verdict(written),
        r is Ok <==> written == Ok::<usize, LinkError>(1),
{
    match written {
        Ok(n) => {
            if n == 1 {
                Ok(())
            } else {
                Err(LinkError::WrongByteCount { written: n })
            }
        },
        Err(e) => Err(e),
    }
}

/// A write that transferred a number of bytes other than one is never
/// reported as success: it surfaces as `WrongByteCount` with that number.
pub proof fn lemma_wrong_count_is_error(n: usize)
    requires
        n != 1,
    ensures
        write_verdict(Ok(n)) == Err::<(), LinkError>(LinkError::WrongByteCount { written: n }),
{
}

} // verus!
