//! Failures that the protocol core reports.

use vstd::prelude::*;

verus! {

/// A datagram that does not fit the wire layout.
#[derive(Debug, Clone, Copy, PartialEq, Eq, Structural)]
pub enum FormatError {
    /// Fewer bytes than the fixed header needs.
    Truncated,
    /// More bytes than one datagram may carry: the size that was asked for,
    /// and the ceiling.
    PayloadTooLarge { size: usize, limit: usize },
}

/// The token of an inbound frame was not accepted.
#[derive(Debug, Clone, Copy, PartialEq, Eq, Structural)]
pub struct AuthError;

/// The transport could not do what it was asked.
#[derive(Debug, Clone, Copy, PartialEq, Eq, Structural)]
pub enum IoError {
    /// It may work when tried again.
    Transient,
    /// It will not work again on this socket.
    Persistent,
}

/// The client could not get its local socket.
#[derive(Debug, Clone, Copy, PartialEq, Eq, Structural)]
pub enum BindError {
    /// The transport could not acquire a socket.
    SocketUnavailable(IoError),
    /// The client was not waiting for a socket.
    NotUnbound,
}

/// A send did not take place.
#[derive(Debug, Clone, Copy, PartialEq, Eq, Structural)]
pub enum SendError {
    /// The frame does not fit one datagram.
    Format(FormatError),
    /// The transport failed to write the datagram.
    Io(IoError),
    /// The client has no socket to send on: it is not bound yet, or closed.
    NotReady,
}

/// An inbound datagram was dropped.
#[derive(Debug, Clone, Copy, PartialEq, Eq, Structural)]
pub enum ReceiveError {
    /// It is no frame.
    Format(FormatError),
    /// Its token was not accepted.
    Auth(AuthError),
    /// The client is not receiving.
    NotRunning,
}

/// A listener could not handle a message that was handed to it.
#[derive(Debug, Clone, Copy, PartialEq, Eq, Structural)]
pub struct ListenerError;

} // verus!
