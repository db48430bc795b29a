//! The three operations of the link, each as what its driver starts from.

use vstd::prelude::*;
use crate::command::{build_get_info, get_info_bytes, get_info_frame, lemma_get_info_frame, InfoRequest};
use crate::error::LinkError;
use crate::framing::frame;
use crate::supervisor::{
    initial, standard_settings, Action, Direction, Supervisor, BAUD_RATE, DUMP_READ_TIMEOUT_MS,
};

verus! {

/// How the channel is opened for the identity query: at the standard bit
/// rate, with the short read timeout of a host that expects a quick reply.
pub fn info_channel() -> (action: Action)
    ensures
        action == (Action::OpenChannel {
            baud_rate: BAUD_RATE,
            read_timeout_ms: DUMP_READ_TIMEOUT_MS,
        }),
{
    Action::OpenChannel { baud_rate: BAUD_RATE, read_timeout_ms: DUMP_READ_TIMEOUT_MS }
}

/// Prepares the identity query, given whether the channel could be opened.
///
/// Without a channel the query fails with `DeviceUnavailable` and there is
/// nothing to send. With one, the result holds the command's three bytes and
/// their frame, which the driver writes to the channel in one call before it
/// reads the reply.
pub fn info(channel_open: bool) -> (result: Result<InfoRequest, LinkError>)
    ensures
        !channel_open ==> result is Err && result->Err_0 == LinkError::DeviceUnavailable,
        channel_open ==> result is Ok && result->Ok_0.command@ == get_info_bytes()
            && result->Ok_0.frame@ == get_info_frame(),
{
    if !channel_open {
        return Err(LinkError::DeviceUnavailable);
    }
    let query = build_get_info();
    let command = query.to_bytes();
    proof {
        lemma_get_info_frame();
    }
    match frame(command.as_slice()) {
        Ok(frame) => Ok(InfoRequest { command, frame }),
        Err(e) => Err(e),
    }
}

/// The supervisor of a dump, before its first step: blocks will travel from
/// the device into a fresh local file.
pub fn dump() -> (supervisor: Supervisor)
    ensures
        supervisor == initial(Direction::Receive, standard_settings()),
        supervisor.wf(),
{
    Supervisor::new(Direction::Receive)
}

/// The supervisor of a flash, before its first step: blocks will travel from
/// the local file to the device.
pub fn flash() -> (supervisor: Supervisor)
    ensures
        supervisor == initial(Direction::Send, standard_settings()),
        supervisor.wf(),
{
    Supervisor::new(Direction::Send)
}

} // verus!
