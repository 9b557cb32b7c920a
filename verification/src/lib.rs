//! Client-side implementation of the MDC protocol used to remote-control
//! commercial display panels over a duplex byte stream.

use vstd::prelude::*;

pub mod client;
pub mod commands;
pub mod proto;

pub use client::DisplayControl;
pub use client::MDCSession;
pub use commands::DISPLAY_BROADCAST;

verus! {

/// General error that can occur during communication with an MDC display.
#[derive(Debug)]
pub enum Error {
    /// The underlying stream failed to read or write.
    Io,
    /// The bytes received could not be parsed as a packet.
    InvalidPacket(crate::proto::Error),
    /// The stream ended or was closed before a full packet arrived.
    UnexpectedEndOfStream,
    /// A reply carried a command id other than acknowledge/not-acknowledge.
    UnexpectedResponse(crate::proto::Packet),
    /// The display answered with a negative acknowledgement.
    Nack(crate::proto::Packet),
    /// A reply carried an out-of-range status byte.
    InvalidValue(crate::client::InvalidValueError),
}

} // verus!
