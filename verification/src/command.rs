//! Control commands of the link: an opcode, a two-byte parameter id and the
//! parameter's bytes, in that order.

use vstd::prelude::*;
use crate::error::LinkError;
use crate::framing::{frame, framed, max_payload_len, unframed, END};

verus! {

/// Wire byte of the opcode that reads a parameter.
pub const GET: u8 = 0x47;

/// Wire byte of the opcode that writes a parameter.
pub const SET: u8 = 0x53;

/// High byte of the id of the device identity parameter.
pub const INFO_ID_HIGH: u8 = 0x47;

/// Low byte of the id of the device identity parameter.
pub const INFO_ID_LOW: u8 = 0x49;

/// Size of the buffer into which the reply to an identity query is read.
pub const INFO_REPLY_CAPACITY: usize = 128;

/// What a command asks of the device.
#[derive(Clone, Copy, Debug, PartialEq, Eq, Structural)]
pub enum Opcode {
    /// Read a parameter.
    Read,
    /// Write a parameter.
    Write,
}

impl Opcode {
    /// The byte that stands for the opcode on the wire.
    pub open spec fn byte_spec(self) -> u8 {
        match self {
            Opcode::Read => GET,
            Opcode::Write => SET,
        }
    }

    /// The byte that stands for the opcode on the wire.
    pub fn byte(&self) -> (b: u8)
        ensures
            b == self.byte_spec(),
    {
        match self {
            Opcode::Read => GET,
            Opcode::Write => SET,
        }
    }
}

/// A command, fixed once built.
#[derive(Debug)]
pub struct Command {
    opcode: Opcode,
    id_high: u8,
    id_low: u8,
    params: Vec<u8>,
}

impl View for Command {
    type V = Seq<u8>;

    /// The bytes of the command in wire order, before framing.
    closed spec fn view(&self) -> Seq<u8> {
        seq![self.opcode.byte_spec(), self.id_high, self.id_low] + self.params@
    }
}

/// The bytes of a command with the given parts, in wire order.
pub open spec fn command_bytes(opcode: Opcode, id_high: u8, id_low: u8, params: Seq<u8>) -> Seq<
    u8,
> {
    seq![opcode.byte_spec(), id_high, id_low] + params
}

/// The bytes of the identity query.
pub open spec fn get_info_bytes() -> Seq<u8> {
    seq![GET, INFO_ID_HIGH, INFO_ID_LOW]
}

impl Command {
    /// Builds a command from its parts.
    pub fn new(opcode: Opcode, id_high: u8, id_low: u8, params: Vec<u8>) -> (command: Command)
        ensures
            command@ == command_bytes(opcode, id_high, id_low, params@),
    {
        Command { opcode, id_high, id_low, params }
    }

    /// The bytes of the command in wire order, before framing.
    pub fn to_bytes(&self) -> (bytes: Vec<u8>)
        ensures
            bytes@ == self@,
    {
        let mut bytes: Vec<u8> = Vec::new();
        bytes.push(self.opcode.byte());
        bytes.push(self.id_high);
        bytes.push(self.id_low);
        let ghost head = bytes@;
        let mut i: usize = 0;
        while i < self.params.len()
            invariant
                0 <= i <= self.params.len(),
                bytes@ == head + self.params@.take(i as int),
            decreases self.params.len() - i,
        {
            bytes.push(self.params[i]);
            proof {
                assert(self.params@.take(i + 1) =~= self.params@.take(i as int).push(
                    self.params@[i as int],
                ));
                assert(bytes@ =~= head + self.params@.take(i + 1));
            }
            i = i + 1;
        }
        proof {
            assert(self.params@.take(i as int) =~= self.params@);
            assert(head =~= seq![self.opcode.byte_spec(), self.id_high, self.id_low]);
        }
        bytes
    }

    /// Frames the command for the wire.
    ///
    /// Fails with `EncodingError` exactly when the command is too long to be
    /// framed.
    pub fn frame(&self) -> (result: Result<Vec<u8>, LinkError>)
        ensures
            self@.len() <= max_payload_len() ==> result.is_ok() && result.unwrap()@ == framed(
                self@,
            ),
            self@.len() > max_payload_len() ==> result == Err::<Vec<u8>, LinkError>(
                LinkError::EncodingError,
            ),
    {
        let bytes = self.to_bytes();
        frame(bytes.as_slice())
    }
}

/// Builds the identity query: the opcode `GET` and the two id bytes, with no
/// parameter bytes.
pub fn build_get_info() -> (command: Command)
    ensures
        command@ == get_info_bytes(),
{
    let command = Command::new(Opcode::Read, INFO_ID_HIGH, INFO_ID_LOW, Vec::new());
    proof {
        assert(command@ =~= get_info_bytes());
    }
    command
}

/// What the identity query puts on the wire, and what it is shown as.
#[derive(Debug)]
pub struct InfoRequest {
    /// The command's bytes before framing.
    pub command: Vec<u8>,
    /// The frame to write to the channel in one call.
    pub frame: Vec<u8>,
}

/// The frame of the identity query: its three bytes, none of which needs an
/// escape, and the delimiter.
pub open spec fn get_info_frame() -> Seq<u8> {
    seq![GET, INFO_ID_HIGH, INFO_ID_LOW, END]
}

/// The frame of the identity query is its three bytes and the delimiter, and
/// taking the payload out of it gives the three bytes back.
pub proof fn lemma_get_info_frame()
    ensures
        framed(get_info_bytes()) == get_info_frame(),
        unframed(get_info_frame()) == Some(get_info_bytes()),
{
    let q = get_info_bytes();
    assert(q.skip(1).skip(1).skip(1) =~= Seq::<u8>::empty());
    reveal_with_fuel(crate::framing::stuffed, 5);
    assert(framed(q) =~= get_info_frame());
    crate::framing::lemma_frame_round_trip(q);
}

/// A zeroed buffer of `INFO_REPLY_CAPACITY` bytes to read the reply into.
/// A read may fill any part of it; the rest stays zero.
pub fn info_reply_buffer() -> (buffer: Vec<u8>)
    ensures
        buffer@.len() == INFO_REPLY_CAPACITY,
        forall|i: int| 0 <= i < buffer@.len() ==> buffer@[i] == 0u8,
{
    let mut buffer: Vec<u8> = Vec::new();
    let mut i: usize = 0;
    while i < INFO_REPLY_CAPACITY
        invariant
            0 <= i <= INFO_REPLY_CAPACITY,
            buffer@.len() == i,
            forall|j: int| 0 <= j < buffer@.len() ==> buffer@[j] == 0u8,
        decreases INFO_REPLY_CAPACITY - i,
    {
        buffer.push(0u8);
        i = i + 1;
    }
    buffer
}

} // verus!
