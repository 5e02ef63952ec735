//! The limiter and its admission rule.

use vstd::prelude::*;
use crossbeam::utils::Backoff;
use std::sync::Arc;
use std::sync::atomic::AtomicUsize;
use std::sync::atomic::Ordering;
use crate::slot::Reservation;
use crate::slot::Slot;

verus! {

/// The admission rule. With `seen` reservations out, a limiter for `max` admits
/// one more exactly when `seen < max`, and the count to move to is `seen + 1`.
pub open spec fn claim(seen: nat, max: nat) -> Option<nat> {
    if seen < max {
        Some(seen + 1)
    } else {
        None
    }
}

/// Decides what to do with a value read from the counter: `None` when the
/// limiter is full, otherwise the value to swap in. The result never exceeds
/// `max`, so the addition cannot overflow.
pub fn plan(current: usize, max: usize) -> (next: Option<usize>)
    ensures
        match next {
            Some(index) => claim(current as nat, max as nat) == Some(index as nat),
            None => claim(current as nat, max as nat) is None,
        },
{
    if current >= max {
        None
    } else {
        Some(current + 1)
    }
}

/// Admits at most `max` reservations at a time.
///
/// `slots` counts the reservations that are out. It is shared with every
/// [`Slot`] handed out, which takes one from it at the end of its life.
pub struct RateLimiter {
    pub slots: Arc<AtomicUsize>,
    pub max: usize,
}

impl RateLimiter {
    /// A limiter for `max` reservations, with none out. A `max` of 0 is
    /// allowed: such a limiter never admits anyone.
    pub fn new(max: usize) -> (limiter: Self)
        ensures
            limiter.max == max,
    {
        RateLimiter { slots: Arc::new(AtomicUsize::new(0)), max }
    }

    /// What an attempt comes to once its swap has returned. A swap that went
    /// through has made a reservation at `next`, which the slot takes over;
    /// after one that did not, `item` goes back to the caller.
    pub(crate) fn settle<T>(
        &self,
        item: T,
        next: usize,
        swapped: Result<usize, usize>,
    ) -> (outcome: Result<Slot<T>, T>)
        requires
            next >= 1,
        ensures
            match swapped {
                Ok(_) => outcome matches Ok(slot) && slot@ == (Reservation {
                    payload: item,
                    index: next,
                    counter: self.slots,
                }),
                Err(_) => outcome == Err::<Slot<T>, T>(item),
            },
    {
        match swapped {
            Ok(_) => Ok(Slot::seat(item, next, &self.slots)),
            Err(_) => Err(item),
        }
    }

    /// Tries up to `attempts` times to reserve a slot for `item`.
    ///
    /// Each attempt reads the counter. If it is at `max`, the attempt waits a
    /// little, longer each time and in the end by yielding the thread. If not,
    /// it tries to swap in the next value; where another thread was faster, it
    /// spins briefly. The first swap that goes through makes the reservation.
    ///
    /// What the counter holds is up to the other threads, so no success is
    /// promised. An `Ok` carries `item` and an index between 1 and `max`, and is
    /// tied to this limiter's counter. An `Err` hands `item` back untouched; it
    /// is certain when there are no attempts or no capacity at all.
    pub fn get_slot<T>(&self, item: T, attempts: usize) -> (outcome: Result<Slot<T>, T>)
        ensures
            match outcome {
                Ok(slot) => {
                    &&& slot@.payload == item
                    &&& 1 <= slot@.index <= self.max
                    &&& slot@.counter == self.slots
                },
                Err(back) => back == item,
            },
            attempts == 0 || self.max == 0 ==> outcome is Err,
    {
        let backoff = Backoff::new();
        let mut held = item;
        let mut tried: usize = 0;
        while tried < attempts
            invariant
                tried <= attempts,
                held == item,
            decreases attempts - tried,
        {
            let current: usize = self.slots.load(Ordering::SeqCst);
            match plan(current, self.max) {
                None => {
                    backoff.snooze();
                },
                Some(next) => {
                    let swapped = self.slots.compare_exchange(
                        current,
                        next,
                        Ordering::SeqCst,
                        Ordering::SeqCst,
                    );
                    match self.settle(held, next, swapped) {
                        Ok(slot) => {
                            return Ok(slot);
                        },
                        Err(back) => {
                            held = back;
                            backoff.spin();
                        },
                    }
                },
            }
            tried = tried + 1;
        }
        Err(held)
    }
}

} // verus!
