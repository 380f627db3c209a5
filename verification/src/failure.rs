//! What can go wrong around the meter.

use vstd::prelude::*;

verus! {

/// Why an operation on the meter did not succeed.
#[derive(Clone, Debug, PartialEq, Eq)]
pub enum Failure {
    /// The sampler could not be set up; the text says why.
    Init(String),
    /// A rescan failed; the text says why. The earlier snapshots stay.
    Scan(String),
    /// The counters could not be written as JSON; the text says why.
    Encode(String),
    /// A thread panicked while it held the lock.
    Poisoned,
}

impl Failure {
    /// Whether the process should stop over this failure. A failed rescan is
    /// the one failure that is logged and passed over: the report stays as
    /// it was, and the next rescan may succeed.
    pub fn is_fatal(&self) -> (r: bool)
        ensures
            r == !(self is Scan),
    {
        match self {
            Failure::Scan(_) => false,
            _ => true,
        }
    }
}

} // verus!
