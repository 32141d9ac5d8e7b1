//! The error taxonomy of the adapter.
//!
//! Three kinds of trouble are terminal for the attempt that produced them:
//! a transport I/O failure (the original error is preserved unmodified), a
//! terminal engine failure (the engine's diagnostic state is carried along),
//! and a setup failure detected before any network I/O occurred.  The
//! would-block sentinel is never among them: it is absorbed inside the
//! adapter and never surfaces to a caller.

use vstd::prelude::*;

verus! {

/// A transport-level I/O failure.  The adapter carries the original error
/// through unmodified, so callers can tell network trouble from protocol
/// trouble and apply a differentiated retry policy.
#[derive(Clone, Copy, Debug, PartialEq, Eq, Structural)]
pub struct TransportError {
    /// The transport's own error code.
    pub code: u64,
}

/// The engine's diagnostic state, captured at the moment it reported a
/// terminal failure.
#[derive(Clone, Copy, Debug, PartialEq, Eq, Structural)]
pub struct EngineFault {
    /// The engine's diagnostic code.
    pub code: u64,
}

/// The error type returned after a failed handshake attempt.  Exactly one of
/// these is produced per attempt; none triggers an internal retry.
#[derive(Clone, Copy, Debug, PartialEq, Eq, Structural)]
pub enum HandshakeError {
    /// A terminal engine failure (certificate or protocol error) reported
    /// during the handshake.
    Failure(EngineFault),
    /// A misconfiguration detected before any network I/O occurred.
    SetupFailure(EngineFault),
    /// An I/O error reported by the transport during the handshake.
    Io(TransportError),
}

impl HandshakeError {
    /// Returns the engine's diagnostic code, if the handshake itself failed.
    pub fn code(&self) -> (r: Option<u64>)
        ensures
            r == (match *self {
                HandshakeError::Failure(f) => Some(f.code),
                _ => None::<u64>,
            }),
    {
        match self {
            HandshakeError::Failure(f) => Some(f.code),
            _ => None,
        }
    }

    /// Returns the transport error, if the handshake was aborted by one.
    pub fn as_io_error(&self) -> (r: Option<TransportError>)
        ensures
            r == (match *self {
                HandshakeError::Io(e) => Some(e),
                _ => None::<TransportError>,
            }),
    {
        match self {
            HandshakeError::Io(e) => Some(*e),
            _ => None,
        }
    }
}

/// The error surfaced by a post-handshake stream operation.  A setup failure
/// can no longer occur once a stream exists, so only two kinds remain.
#[derive(Clone, Copy, Debug, PartialEq, Eq, Structural)]
pub enum StreamError {
    /// A terminal engine failure from the record layer.
    EngineFailure(EngineFault),
    /// An I/O error reported by the transport, preserved unmodified.
    Io(TransportError),
}

} // verus!
