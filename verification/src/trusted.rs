//! Calls whose contracts are believed, not proved.
//!
//! Each item names the function it stands for and says what is claimed of it.

use vstd::prelude::*;
use crossbeam::utils::Backoff;
use std::sync::Arc;
use std::sync::atomic::AtomicUsize;
use std::sync::atomic::Ordering;

verus! {

/// `crossbeam::utils::Backoff`, carried around as an opaque value. It counts the
/// calls made on it in a cell of its own; nothing here reads that count.
#[verifier::external_type_specification]
#[verifier::external_body]
pub struct ExBackoff(crossbeam::utils::Backoff);

/// `Backoff::new` starts a backoff at its first step. Nothing is claimed of the
/// value.
pub assume_specification[ crossbeam::utils::Backoff::new ]() -> (backoff: Backoff);

/// `Backoff::spin` busy-waits for a number of rounds that doubles from call to
/// call up to a fixed limit, and returns. It is meant for retrying after another
/// thread has made progress. Nothing is claimed beyond its return.
pub assume_specification[ crossbeam::utils::Backoff::spin ](backoff: &Backoff);

/// `Backoff::snooze` busy-waits like `spin` on its first calls and yields the
/// thread to the scheduler on later ones, and returns. It is meant for waiting
/// on another thread. Nothing is claimed beyond its return.
pub assume_specification[ crossbeam::utils::Backoff::snooze ](backoff: &Backoff);

/// `std::mem::replace` moves `src` into `dest` and returns the value that was
/// there.
pub assume_specification<T>[ core::mem::replace::<T> ](dest: &mut T, src: T) -> (previous: T)
    ensures
        *final(dest) == src,
        previous == *old(dest),
;

/// `Arc::clone` makes another pointer to the same allocation, so the two point
/// to one value. The strong count goes up by one, which no contract here can
/// say.
#[verifier::external_body]
pub(crate) fn share<V>(record: &Arc<V>) -> (other: Arc<V>)
    ensures
        other == *record,
{
    Arc::clone(record)
}

/// `Arc::try_unwrap` returns the value inside if this pointer is the only strong
/// one, and otherwise the same pointer back. Which of the two comes depends on
/// the other owners, so both outcomes are described and neither is promised.
#[verifier::external_body]
pub(crate) fn reclaim<V>(record: Arc<V>) -> (outcome: Result<V, Arc<V>>)
    ensures
        match outcome {
            Ok(value) => value == *record,
            Err(shared) => shared == record,
        },
{
    Arc::try_unwrap(record)
}

/// `AtomicUsize::fetch_sub` subtracts `amount` from the word, wrapping around,
/// and returns what the word held before. The subtraction cannot panic; that
/// the call returns without unwinding is all that is claimed, since the word's
/// value is out of sight.
#[verifier::external_body]
pub(crate) fn take_back(counter: &AtomicUsize, amount: usize, order: Ordering) -> (before: usize)
    opens_invariants none
    no_unwind
{
    counter.fetch_sub(amount, order)
}

} // verus!
