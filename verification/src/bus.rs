//! The two capabilities the driver is generic over: a byte-write transport
//! and a blocking millisecond delay.
//!
//! Both are write-only collaborators with no read-back, so each trait carries
//! ghost logs of the calls made through it. The contracts of the driver are
//! stated over those logs: a verified caller learns exactly which bytes were
//! handed to the transport, which of those writes succeeded, and which delays
//! were requested, each in order. The write log and the delay log are
//! separate, so the contracts order writes among themselves and delays among
//! themselves; how the two interleave is pinned only where a contract
//! couples them, as the failure clause of `Lcd::init` does.
//!
//! The log spec functions carry a constant-empty default body so that
//! unverified code can implement these traits without naming ghost state; a
//! verified implementation must override them, since with a constant log the
//! method contracts cannot be satisfied.

use vstd::prelude::*;

verus! {

/// A byte-write transport to one addressable peripheral.
///
/// `writes` is the log of every write attempted so far, as
/// `(address, byte)` pairs, and `results` holds one entry per attempt,
/// `true` where the write succeeded. A call of [`Bus::write`] appends to
/// both logs whether or not it succeeds: an implementation decides freely
/// which calls fail, but it cannot pretend a failed attempt never happened,
/// nor misreport an outcome.
///
/// Only an unverified implementation, such as an adapter over a real bus,
/// may leave the default log bodies in place: with the constant-empty logs
/// the `write` contract is unsatisfiable, so no verified implementation can
/// keep them, and nothing is proved about such an adapter beyond what its
/// caller assumes.
pub trait Bus: Sized {
    /// The transport's failure value, surfaced unchanged by the driver.
    type Error;

    /// The log of all write attempts so far, in order.
    open spec fn writes(&self) -> Seq<(u8, u8)> {
        Seq::empty()
    }

    /// The outcome of each write attempt so far, in order: `true` for a
    /// write that succeeded.
    open spec fn results(&self) -> Seq<bool> {
        Seq::empty()
    }

    /// Writes one byte to the peripheral at `address`.
    fn write(&mut self, address: u8, byte: u8) -> (r: Result<(), Self::Error>)
        ensures
            final(self).writes() == old(self).writes().push((address, byte)),
            final(self).results() == old(self).results().push(r is Ok),
    ;
}

/// A blocking millisecond-granularity wait.
///
/// `delays` is the log of every requested wait so far, in milliseconds.
/// As with [`Bus`], only an unverified implementation may leave the default
/// log body in place.
pub trait Delay: Sized {
    /// The log of all requested delays so far, in order.
    open spec fn delays(&self) -> Seq<u8> {
        Seq::empty()
    }

    /// Blocks the calling thread for `ms` milliseconds.
    fn delay_ms(&mut self, ms: u8)
        ensures
            final(self).delays() == old(self).delays().push(ms),
    ;
}

} // verus!
