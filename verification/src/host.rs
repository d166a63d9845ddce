//! What the library takes from the clock and the random number generator.
//! Verus believes the contracts in this file without proof.

use std::time::{Duration, Instant};

use rand::distributions::Uniform;
use rand::seq::SliceRandom;
use rand::{thread_rng, Rng};
use vstd::prelude::*;

verus! {

/// `std::time::Instant`, a reading of the monotonic clock. The library only
/// stores such readings and hands them back to the clock.
#[verifier::external_type_specification]
#[verifier::external_body]
pub struct ExInstant(Instant);

/// `Instant::now` reads the clock. The reading depends on the moment of the
/// call, so nothing is claimed of it.
pub assume_specification[ Instant::now ]() -> (reading: Instant);

/// `Instant::elapsed` gives the time that has passed since the reading was
/// taken. It depends on the moment of the call, so nothing is claimed of it.
pub assume_specification[ Instant::elapsed ](start: &Instant) -> (passed: Duration);

/// `SliceRandom::shuffle` on the slice of `values`, with the generator that
/// `thread_rng` gives: the items are exchanged in place, so afterwards the
/// vector holds the same items, each as often as before, in an order that
/// depends on chance. The generator panics if the system cannot seed it.
#[verifier::external_body]
pub(crate) fn shuffle_in_place(values: &mut Vec<usize>)
    ensures
        final(values)@.to_multiset() == old(values)@.to_multiset(),
{
    values.shuffle(&mut thread_rng());
}

/// `Rng::sample` of `Uniform::new(0, bound)`, with the generator that
/// `thread_rng` gives: a number of the half-open range from 0 to `bound`,
/// which depends on chance. `Uniform::new` panics on an empty range.
#[verifier::external_body]
pub(crate) fn random_below(bound: usize) -> (drawn: usize)
    requires
        bound > 0,
    ensures
        drawn < bound,
{
    thread_rng().sample(Uniform::new(0usize, bound))
}

/// The text that std's `Debug` for `Duration` writes at a precision of two
/// digits, such as `1.50s` or `20.00ms`.
pub uninterp spec fn duration_text(elapsed: Duration) -> Seq<char>;

/// `format!` with `{:.2?}`, which writes `elapsed` through std's `Debug` for
/// `Duration`. The text is a function of the duration alone; the contract
/// gives it its name and claims nothing else of it.
#[verifier::external_body]
pub(crate) fn format_duration(elapsed: &Duration) -> (text: String)
    ensures
        text@ == duration_text(*elapsed),
{
    format!("{:.2?}", elapsed)
}

} // verus!
