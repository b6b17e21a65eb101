//! Waiting times with jitter: a random share on top of a base time, so that
//! processes that retry do not retry together.

use vstd::prelude::*;

verus! {

/// `rand::distributions::Range::new(low, high)`, sampled once by
/// `IndependentSample::ind_sample` with the generator of `rand::thread_rng`:
/// some number from `low` up to, not including, `high`. Which one is a matter
/// of chance. `Range::new` panics unless `low < high`; `thread_rng` takes its
/// seed from the machine and panics where the machine gives none.
#[verifier::external_body]
fn sample_range(low: u64, high: u64) -> (sample: u64)
    requires
        low < high,
    ensures
        low <= sample < high,
{
    let mut rng = rand::thread_rng();
    rand::distributions::IndependentSample::ind_sample(&rand::distributions::Range::new(low, high), &mut rng)
}

/// The time `base` with `sample` on top, in milliseconds.
pub fn delayed(base: u64, sample: u64) -> (time: u64)
    requires
        base + sample <= u64::MAX,
    ensures
        time == base + sample,
{
    base + sample
}

/// A time that can be given jitter.
pub trait Jitter: Sized {
    /// The time in milliseconds.
    spec fn in_millis(&self) -> nat;

    /// This time and a random share on top, of at least 0 and less than
    /// `millis` milliseconds.
    fn jitter(&self, millis: u64) -> (jittered: Self)
        requires
            millis > 0,
            self.in_millis() + millis <= u64::MAX,
        ensures
            self.in_millis() <= jittered.in_millis() < self.in_millis() + millis,
    ;
}

/// A time in milliseconds.
impl Jitter for u64 {
    open spec fn in_millis(&self) -> nat {
        *self as nat
    }

    fn jitter(&self, millis: u64) -> (jittered: u64) {
        let sample = sample_range(0, millis);
        delayed(*self, sample)
    }
}

} // verus!
