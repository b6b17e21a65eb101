//! A counter in memory.

use crate::error::ErrorKind;
use crate::MonotonicCounter;
use vstd::prelude::*;

verus! {

#[derive(Debug, Clone)]
pub struct Counter {
    counter: u64,
}

impl Counter {
    /// The value handed out last, 0 if none was.
    pub closed spec fn value(&self) -> u64 {
        self.counter
    }

    /// A counter that has handed out nothing.
    pub fn new() -> (counter: Counter)
        ensures
            counter.value() == 0,
    {
        Counter { counter: 0 }
    }
}

/// The value of a counter after one more call of `next_value`: the next
/// one, but at the end of the 64-bit range the value stays.
pub open spec fn after_next(value: u64) -> u64 {
    if value < u64::MAX {
        (value + 1) as u64
    } else {
        value
    }
}

/// The value of a fresh counter after `calls` calls of `next_value`.
pub open spec fn after_calls(calls: nat) -> u64
    decreases calls,
{
    if calls == 0 {
        0
    } else {
        after_next(after_calls((calls - 1) as nat))
    }
}

/// Counter monotonicity. Within the 64-bit range, the value of a fresh
/// counter after `calls` calls is `calls`: the calls hand out 1, 2, 3 and so
/// on, none left out and none twice.
pub proof fn lemma_values_are_consecutive(calls: nat)
    requires
        calls <= u64::MAX,
    ensures
        after_calls(calls) == calls,
    decreases calls,
{
    if calls > 0 {
        lemma_values_are_consecutive((calls - 1) as nat);
    }
}

impl MonotonicCounter for Counter {
    type Error = ErrorKind;

    fn get_value(&self) -> (result: Result<u64, ErrorKind>)
        ensures
            result == Ok::<u64, ErrorKind>(self.value()),
    {
        Ok(self.counter)
    }

    /// Hands out the value after the last one. At the end of the 64-bit range
    /// the counter stays as it is and the call fails with `Overflow`.
    fn next_value(&mut self) -> (result: Result<u64, ErrorKind>)
        ensures
            final(self).value() == after_next(old(self).value()),
            old(self).value() < u64::MAX ==> result == Ok::<u64, ErrorKind>(final(self).value()),
            old(self).value() == u64::MAX ==> result == Err::<u64, ErrorKind>(ErrorKind::Overflow),
    {
        if self.counter == u64::MAX {
            return Err(ErrorKind::Overflow);
        }
        self.counter += 1;
        Ok(self.counter)
    }
}

} // verus!
