//! The ways in which an operation on the link can end badly.

use vstd::prelude::*;

verus! {

/// A fatal condition; each one ends the operation during which it arises.
#[derive(Clone, Copy, Debug, PartialEq, Eq, Structural)]
pub enum LinkError {
    /// The serial channel could not be opened.
    DeviceUnavailable,
    /// The local file could not be created or opened.
    ArtifactError,
    /// The block transfer gave up or was cancelled by the remote end.
    TransferError,
    /// A frame could not be produced, or received bytes are no valid frame.
    EncodingError,
}

/// The part of an operation during which a fatal condition arose.
#[derive(Clone, Copy, Debug, PartialEq, Eq, Structural)]
pub enum Stage {
    /// Bringing up the serial channel or the local file.
    Open,
    /// Moving blocks between host and device.
    Transfer,
    /// Waiting for the transfer's worker to end and hand over its result.
    Join,
    /// Putting a command into a frame or taking it out.
    Framing,
}

impl LinkError {
    /// The stage at which each error first can arise.
    pub open spec fn stage_spec(self) -> Stage {
        match self {
            LinkError::DeviceUnavailable => Stage::Open,
            LinkError::ArtifactError => Stage::Open,
            LinkError::TransferError => Stage::Transfer,
            LinkError::EncodingError => Stage::Framing,
        }
    }

    /// Tells which stage failed, for the message shown to the operator.
    pub fn stage(&self) -> (stage: Stage)
        ensures
            stage == self.stage_spec(),
    {
        match self {
            LinkError::DeviceUnavailable => Stage::Open,
            LinkError::ArtifactError => Stage::Open,
            LinkError::TransferError => Stage::Transfer,
            LinkError::EncodingError => Stage::Framing,
        }
    }
}

} // verus!
