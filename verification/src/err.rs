//! The error kinds that the engine can report.

use vstd::prelude::*;

verus! {

/// Everything that can go wrong inside the protocol engine.
///
/// Callsign validation errors surface at the construction call; frame
/// errors surface from the codec; the remaining kinds surface from the
/// multiplexer and the virtual-circuit operations.
#[derive(Clone, Copy, Debug, PartialEq, Eq, Structural)]
pub enum AgwError {
    /// A callsign was too long or held a disallowed byte, or the 7-byte
    /// binary form was given a bad SSID or base length.
    InvalidCallsign,
    /// A frame or fixed-width reply had the wrong payload size, or a
    /// payload that must be text was not valid UTF-8.
    MalformedFrame,
    /// A `C` banner matched neither recognised connect family.
    UnexpectedBanner,
    /// More than seven digipeater hops were requested.
    TooManyHops,
    /// No connect reply arrived within the deadline.
    ConnectTimeout,
    /// The remote station closed the virtual circuit.
    RemoteDisconnected,
    /// The transport below the engine failed; nothing further can be sent.
    Transport,
    /// The engine is shutting down while a caller is blocked.
    QueueClosed,
}

} // verus!
