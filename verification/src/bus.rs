//! The register-bus and delay capabilities the driver is built over.
//!
//! A bus is modelled by the sequence of transactions that have completed on
//! it (its *log*). Both primitives are fallible with the bus's native error
//! type; a failed exchange leaves no completed transaction behind, so the
//! log is unchanged. A delay handle is modelled the same way, by the
//! sequence of sleeps it has served.

use vstd::prelude::*;

verus! {

/// One completed transaction on the register bus, as the driver's contracts
/// see it.
#[verifier::ext_equal]
pub enum BusOp {
    /// A plain write of `data` to the device at `addr`, with no response.
    Write { addr: u8, data: Seq<u8> },
    /// A write of `request` immediately followed by a read of `response`,
    /// executed as one bus transaction.
    WriteRead { addr: u8, request: Seq<u8>, response: Seq<u8> },
}

impl BusOp {
    /// The bytes the device answered with; meaningful for `WriteRead` only.
    pub open spec fn response(self) -> Seq<u8> {
        match self {
            BusOp::Write { .. } => Seq::empty(),
            BusOp::WriteRead { response, .. } => response,
        }
    }
}

/// A register-bus transport: a single write, and a write immediately
/// followed by a read, each a single atomic bus transaction.
pub trait Bus: Sized {
    /// The transport's native error type, opaque to the driver.
    type BusError;

    /// The transactions that have completed on this bus, oldest first.
    spec fn log(&self) -> Seq<BusOp>;

    /// Send `data` to the device at `addr`, expecting no response.
    fn write_bytes(&mut self, addr: u8, data: &Vec<u8>) -> (r: Result<
        (),
        Self::BusError,
    >)
        ensures
            r is Ok ==> final (self).log() == old(self).log().push(
                BusOp::Write { addr, data: data@ },
            ),
            r is Err ==> final (self).log() == old(self).log(),
    ;

    /// Send `request` to the device at `addr`, then read exactly
    /// `response.len()` bytes back into `response`, as one transaction.
    fn write_then_read(&mut self, addr: u8, request: &Vec<u8>, response: &mut Vec<u8>) -> (r:
        Result<(), Self::BusError>)
        ensures
            r is Ok ==> final (response)@.len() == old(response)@.len() && final (self).log()
                == old(self).log().push(
                BusOp::WriteRead { addr, request: request@, response: final (response)@ },
            ),
            r is Err ==> final (self).log() == old(self).log(),
    ;
}

/// A sleep capability, modelled by the sequence of sleeps (in milliseconds)
/// it has served, oldest first.
pub trait Delay: Sized {
    /// Every sleep served so far, in milliseconds.
    spec fn sleeps(&self) -> Seq<u32>;

    /// Block for `ms` milliseconds. Delays are infallible.
    fn delay_ms(&mut self, ms: u32)
        ensures
            final (self).sleeps() == old(self).sleeps().push(ms),
    ;
}

} // verus!
