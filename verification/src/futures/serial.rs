//! Serial receive: a future that completes with the next received byte.
use vstd::prelude::*;

verus! {

/// What the console device reports when asked for a received byte.
#[derive(Debug, Clone, Copy, PartialEq, Eq, Structural)]
pub enum SerialRxStatus {
    /// A byte was received.
    Ready(u8),
    /// No byte yet; the waker was registered.
    Pending,
    /// The driver has no interrupt-driven receive.
    Unsupported,
}

/// Future that completes when a byte is received from the serial port.
pub struct SerialRx;

impl SerialRx {
    pub fn new() -> (r: Self) {
        SerialRx
    }

    /// The outcome of one poll, given the device's report: the byte when one
    /// was received, otherwise pending (forever, for a device without
    /// interrupt-driven receive).
    pub fn poll(&mut self, status: SerialRxStatus) -> (r: Option<u8>)
        ensures
            r == match status {
                SerialRxStatus::Ready(b) => Some(b),
                _ => None,
            },
    {
        match status {
            SerialRxStatus::Ready(b) => Some(b),
            SerialRxStatus::Pending | SerialRxStatus::Unsupported => None,
        }
    }
}

} // verus!
