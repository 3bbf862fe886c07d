//! Error taxonomy shared by the client and the server side.

use vstd::prelude::*;

verus! {

/// A violation of the framing discipline, seen by the receiver of a frame.
#[derive(Clone, Copy, Debug, PartialEq, Eq, Structural)]
pub enum ProtocolError {
    /// The stream ended inside the length field, of which `received` bytes
    /// had arrived.
    ShortLength { received: u64 },
    /// The stream ended inside the payload: `declared` bytes were
    /// announced and `received` of them arrived.
    ShortPayload { declared: u64, received: u64 },
    /// The length field announces more payload than the receiver accepts.
    Oversized { declared: u64, limit: u64 },
}

/// Why a client session or a server-side connection ended without success.
#[derive(Clone, Copy, Debug, PartialEq, Eq, Structural)]
pub enum RelayError {
    /// The project lacks its manifest marker, or a path is malformed.
    InvalidInput,
    /// The peer broke the framing discipline.
    Protocol(ProtocolError),
    /// A filesystem or network operation outside the protocol layer failed.
    Io,
    /// The build tool reported failure or left no artifact behind.
    Executor,
    /// A workspace could not be created or removed.
    Resource,
}

impl RelayError {
    /// A short description for diagnostics.
    pub fn describe(&self) -> (text: &'static str)
        ensures
            text@ == Self::description(*self),
    {
        match self {
            RelayError::InvalidInput => "invalid input",
            RelayError::Protocol(ProtocolError::ShortLength { .. }) => "protocol error: short read",
            RelayError::Protocol(ProtocolError::ShortPayload { .. }) => "protocol error: short read",
            RelayError::Protocol(ProtocolError::Oversized { .. }) => "protocol error: oversized frame",
            RelayError::Io => "i/o error",
            RelayError::Executor => "build executor failed",
            RelayError::Resource => "workspace could not be managed",
        }
    }

    /// The text that [`RelayError::describe`] returns.
    pub open spec fn description(e: RelayError) -> Seq<char> {
        match e {
            RelayError::InvalidInput => "invalid input"@,
            RelayError::Protocol(ProtocolError::ShortLength { .. }) => "protocol error: short read"@,
            RelayError::Protocol(ProtocolError::ShortPayload { .. }) => "protocol error: short read"@,
            RelayError::Protocol(ProtocolError::Oversized { .. }) => "protocol error: oversized frame"@,
            RelayError::Io => "i/o error"@,
            RelayError::Executor => "build executor failed"@,
            RelayError::Resource => "workspace could not be managed"@,
        }
    }
}

} // verus!
