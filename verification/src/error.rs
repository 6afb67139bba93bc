//! The driver's error taxonomy: a wrapped bus failure, or the bounded
//! flags poll running out of retries. No other error exists at this layer,
//! and no operation swallows either kind.

use vstd::prelude::*;

verus! {

/// What a driver operation can fail with.
#[derive(Debug)]
pub enum DeviceError<E> {
    /// The underlying bus reported a failure (NACK, arbitration loss, a
    /// bus-level timeout); the transport's own error is carried unchanged.
    TransportError(E),
    /// The config-update poll exhausted its retry budget without observing
    /// the expected flag bit.
    PollTimeout,
}

impl<E> DeviceError<E> {
    /// The total conversion from a transport failure into the driver's
    /// error type, applied at every fallible bus call.
    pub fn from_transport(e: E) -> (r: Self)
        ensures
            r == DeviceError::TransportError(e),
    {
        DeviceError::TransportError(e)
    }
}

} // verus!
