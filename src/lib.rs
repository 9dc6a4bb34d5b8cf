//! A virtual USB device bus that serves one device to a remote host over the
//! USB/IP protocol.
//!
//! The crate holds the protocol's wire codec, the endpoint model and the bus
//! state machine. Sockets and the `usb-device` trait live around it: they hand
//! received frames to [`bus::UsbIpBus`] and send what it queues.

pub mod wire;
pub mod bus;
pub mod cmd;
pub mod endpoint;
pub mod op;
pub mod request;
pub mod response;

pub use cmd::{Direction, TransferFlags, UsbCmd, UsbIpHeader};

use vstd::prelude::*;

verus! {

/// The number of endpoints the bus offers.
pub const NUM_ENDPOINTS: usize = 8;

/// The error type, used by this crate.
#[derive(Debug, Clone, Copy, PartialEq, Eq, Structural)]
pub enum UsbIpError {
    /// The connection closed unexpectedly.
    ConnectionClosed,
    /// A frame was shorter than its fixed part, or than the payload it announces.
    PkgTooShort(usize),
    /// A frame carried a command code that the protocol does not define here.
    InvalidCommand(u32),
    /// A request had a status field other than zero.
    StatusNotOk(u32),
    /// A bus id was not valid UTF-8.
    BadUtf8,
}

} // verus!
