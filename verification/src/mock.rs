//! Recording implementations of the bus and delay capabilities.
//!
//! [`MockBus`] keeps every attempted write and can be told to fail the write
//! with a chosen ordinal, which is how the fail-fast behaviour of the driver
//! is exercised. [`MockDelay`] keeps every requested delay. Both are ordinary
//! verified code: nothing about the driver's contracts is special-cased for
//! them.

use vstd::prelude::*;

use crate::bus::Bus;
use crate::bus::Delay;

verus! {

/// The failure value of [`MockBus`].
#[derive(Clone, Copy, PartialEq, Eq, Structural, Debug)]
pub struct BusFault;

/// A transport that records every attempted write and its outcome.
///
/// When `fail_at` is `Some(n)`, the `n`-th write attempt (counting from 1
/// over the whole life of the mock) is recorded like any other and then
/// reported as failed.
pub struct MockBus {
    /// Every write attempted so far, as `(address, byte)` pairs, in order.
    pub written: Vec<(u8, u8)>,
    /// The outcome of each attempt, in order: `true` where it succeeded.
    pub outcomes: Vec<bool>,
    /// The ordinal of the one write attempt to fail, counting from 1.
    pub fail_at: Option<usize>,
}

/// A delay source that records every requested wait.
pub struct MockDelay {
    /// Every requested delay so far, in milliseconds, in order.
    pub waited: Vec<u8>,
}

impl MockBus {
    /// A mock whose writes all succeed.
    pub fn new() -> (r: MockBus)
        ensures
            r.writes() == Seq::<(u8, u8)>::empty(),
            r.results() == Seq::<bool>::empty(),
            r.fail_at is None,
    {
        MockBus { written: Vec::new(), outcomes: Vec::new(), fail_at: None }
    }

    /// A mock whose `n`-th write attempt fails, counting from 1.
    pub fn failing_at(n: usize) -> (r: MockBus)
        ensures
            r.writes() == Seq::<(u8, u8)>::empty(),
            r.results() == Seq::<bool>::empty(),
            r.fail_at == Some(n),
    {
        MockBus { written: Vec::new(), outcomes: Vec::new(), fail_at: Some(n) }
    }
}

impl Bus for MockBus {
    type Error = BusFault;

    open spec fn writes(&self) -> Seq<(u8, u8)> {
        self.written@
    }

    open spec fn results(&self) -> Seq<bool> {
        self.outcomes@
    }

    fn write(&mut self, address: u8, byte: u8) -> (r: Result<(), BusFault>)
        ensures
            final(self).fail_at == old(self).fail_at,
            r is Err <==> old(self).fail_at == Some((old(self).writes().len() + 1) as usize),
    {
        self.written.push((address, byte));
        let failed = match self.fail_at {
            Some(n) => n == self.written.len(),
            None => false,
        };
        self.outcomes.push(!failed);
        if failed {
            Err(BusFault)
        } else {
            Ok(())
        }
    }
}

impl MockDelay {
    /// A mock that has waited for nothing yet.
    pub fn new() -> (r: MockDelay)
        ensures
            r.delays() == Seq::<u8>::empty(),
    {
        MockDelay { waited: Vec::new() }
    }
}

impl Delay for MockDelay {
    open spec fn delays(&self) -> Seq<u8> {
        self.waited@
    }

    fn delay_ms(&mut self, ms: u8) {
        self.waited.push(ms);
    }
}

} // verus!
