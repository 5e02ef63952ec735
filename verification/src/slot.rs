//! The handle on a reservation.

use vstd::prelude::*;
use std::ops::Deref;
use std::sync::Arc;
use std::sync::atomic::AtomicUsize;
use std::sync::atomic::Ordering;
use crate::trusted::reclaim;
use crate::trusted::share;
use crate::trusted::take_back;

verus! {

/// What a [`Slot`] stands for: the payload it carries, the value the counter
/// took when the reservation was made, and the counter it will be given back to.
pub struct Reservation<T> {
    pub payload: T,
    pub index: usize,
    pub counter: Arc<AtomicUsize>,
}

/// The record that all clones of a slot share. It is destroyed when the last of
/// them goes, and gives the reservation back at that moment.
#[derive(Debug)]
struct InnerSlot<T> {
    inner: T,
    slot: usize,
    slots: Arc<AtomicUsize>,
}

impl<T> Drop for InnerSlot<T> {
    /// Takes one from the counter. This is the only place where the count goes
    /// down, and it runs once for each record.
    fn drop(&mut self)
        opens_invariants none
        no_unwind
    {
        let _before: usize = take_back(&self.slots, 1, Ordering::SeqCst);
    }
}

/// One reservation of a [`RateLimiter`](crate::RateLimiter), with a payload.
///
/// Clones share the reservation. It goes back to the limiter when the last
/// clone is dropped or consumed.
#[derive(Debug)]
pub struct Slot<T> {
    inner: Arc<InnerSlot<T>>,
}

impl<T> View for Slot<T> {
    type V = Reservation<T>;

    closed spec fn view(&self) -> Reservation<T> {
        Reservation {
            payload: self.inner.inner,
            index: self.inner.slot,
            counter: self.inner.slots,
        }
    }
}

impl<T> Slot<T> {
    /// A reservation moves the counter up, so its index is never 0.
    #[verifier::type_invariant]
    spec fn reserved(self) -> bool {
        self.inner.slot >= 1
    }

    /// Wraps a reservation that has just been made on `counter`, which moved it
    /// to `index`. The caller must have made it: the slot will give it back.
    pub(crate) fn seat(item: T, index: usize, counter: &Arc<AtomicUsize>) -> (slot: Self)
        requires
            index >= 1,
        ensures
            slot@ == (Reservation { payload: item, index, counter: *counter }),
    {
        Slot { inner: Arc::new(InnerSlot { inner: item, slot: index, slots: share(counter) }) }
    }

    /// The value the counter took when this reservation was made: at least 1,
    /// and no more than the limiter's maximum. It tells nothing about the count
    /// now.
    pub fn reserved_index(&self) -> (index: usize)
        ensures
            index == self@.index,
            index >= 1,
    {
        proof {
            use_type_invariant(self);
        }
        self.inner.slot
    }
}

impl<T> Clone for Slot<T> {
    /// Another owner of the same reservation. The limiter is not asked again
    /// and its counter is not touched.
    fn clone(&self) -> (other: Self)
        ensures
            other@ == self@,
    {
        proof {
            use_type_invariant(self);
        }
        Slot { inner: share(&self.inner) }
    }
}

impl<T> Deref for Slot<T> {
    type Target = T;

    /// The payload, by reference.
    fn deref(&self) -> (payload: &T)
        ensures
            *payload == self@.payload,
    {
        &self.inner.inner
    }
}

/// Takes the payload out of what [`reclaim`] returned: moved out of the record
/// when the record came back whole, with a default value left in its place, and
/// cloned when the record is still shared.
fn extract<T: Clone + Default>(outcome: Result<InnerSlot<T>, Arc<InnerSlot<T>>>) -> (payload: T)
    ensures
        match outcome {
            Ok(record) => payload == record.inner,
            Err(shared) => vstd::pervasive::strictly_cloned(shared.inner, payload),
        },
{
    match outcome {
        Ok(mut record) => std::mem::replace(&mut record.inner, T::default()),
        Err(shared) => shared.inner.clone(),
    }
}

impl<T: Clone + Default> Slot<T> {
    /// Consumes this handle and returns the payload.
    ///
    /// The last owner gets the payload itself; while other owners remain, the
    /// result is a clone and they keep theirs. Which of the two happens depends
    /// on the other owners at the moment of the call, so the contract covers
    /// both: the result is the payload or a clone of it. The reservation is not
    /// affected beyond the loss of this one owner.
    pub fn into_inner(self) -> (payload: T)
        ensures
            cloned(self@.payload, payload),
    {
        extract(reclaim(self.inner))
    }
}

} // verus!
