//! A virtual USB device bus that speaks the USB/IP protocol.
//!
//! The crate holds the protocol core of such a bus: the codec for the
//! attach-phase (`OP_REQ` / `OP_REP`) and URB-phase (`CMD_SUBMIT` /
//! `RET_SUBMIT`) wire frames, the per-endpoint packet buffers, and the
//! state machine that turns incoming frames into endpoint traffic and
//! response frames.  Everything here is plain computation on bytes and
//! queues; the TCP socket that carries the frames is driven by an
//! embedding program, which feeds received bytes to
//! [`bus::UsbIpBusInner::handle_socket`] and writes out the frames that
//! the bus queues in return.

use vstd::prelude::*;

pub mod bus;
pub mod bytes;
pub mod cmd;
pub mod endpoint;
pub mod op;

verus! {

/// Errors in the traffic received from the USB/IP client.
///
/// Any of these ends the current connection; the bus itself survives and
/// returns to the pre-attach phase.
#[derive(Debug, Clone, Copy, PartialEq, Eq, Structural)]
pub enum UsbIpError {
    /// The peer closed the connection.
    ConnectionClosed,
    /// A read ended before a full frame was available; holds the number of
    /// bytes that were read.
    PkgTooShort(usize),
    /// A frame carried an unknown command code.
    InvalidCommand(u16),
}

/// Errors surfaced to the device stack by the bus facade.
#[derive(Debug, Clone, Copy, PartialEq, Eq, Structural)]
pub enum BusError {
    /// No progress is possible right now; retry after the next poll.
    WouldBlock,
    /// The addressed endpoint does not exist, or exists for the other
    /// direction only.
    InvalidEndpoint,
    /// All sixteen endpoint slots are taken.
    EndpointOverflow,
    /// A queued chunk does not fit the caller's buffer, or a written chunk
    /// exceeds the endpoint's packet size.
    BufferOverflow,
}

} // verus!
