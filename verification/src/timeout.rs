//! `Timeout`: how long to wait, in milliseconds.

use vstd::prelude::*;

verus! {

/// A time-out in milliseconds.
#[derive(Clone, Debug, PartialEq, Eq, Hash, Structural)]
pub struct Timeout(usize);

impl View for Timeout {
    type V = nat;

    /// The milliseconds.
    closed spec fn view(&self) -> nat {
        self.0 as nat
    }
}

impl Timeout {
    /// A time-out of `timeout_ms` milliseconds.
    pub fn new(timeout_ms: usize) -> (r: Timeout)
        ensures
            r@ == timeout_ms,
    {
        Timeout(timeout_ms)
    }

    /// The milliseconds of the time-out.
    pub fn as_millis(&self) -> (r: u64)
        ensures
            r == self@,
    {
        self.0 as u64
    }
}

impl Default for Timeout {
    /// One minute.
    fn default() -> (r: Timeout)
        ensures
            r@ == 60000,
    {
        Timeout(60000)
    }
}

impl vstd::std_specs::convert::FromSpecImpl<usize> for Timeout {
    /// The outcome is stated by `from` itself, over views.
    open spec fn obeys_from_spec() -> bool {
        false
    }

    open spec fn from_spec(millis: usize) -> Timeout {
        arbitrary()
    }
}

impl From<usize> for Timeout {
    fn from(millis: usize) -> (r: Timeout)
        ensures
            r@ == millis,
    {
        Timeout::new(millis)
    }
}

} // verus!
