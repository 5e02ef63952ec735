//! A model of the protocol, and what holds of every run of it.
//!
//! The counter is an atomic word that any thread may change between two looks
//! at it, and the release of a reservation happens in a destructor. Neither can
//! be followed by a contract on the executable code. This module follows them in
//! a model instead: a [`Ledger`] is the counter together with the reservations
//! that are out, and an [`Event`] is one atomic step of some thread. Sequential
//! consistency puts all such steps in one order, so a run of the system is a
//! sequence of events.
//!
//! The model takes three things from the code. An attempt swaps the counter
//! only from the value it read to the one that [`claim`] gives, as
//! [`RateLimiter::get_slot`](crate::RateLimiter::get_slot) does through
//! [`plan`](crate::limiter::plan). A clone adds an owner and makes no
//! reservation. The record behind a slot is destroyed with its last owner, and
//! takes one from the counter then. The laws below are proved of the model; they
//! hold of the running code as far as it behaves like this.

use vstd::prelude::*;
use crate::limiter::claim;

verus! {

/// A reservation that is out: the value the counter took when it was made, and
/// the number of handles that own it.
pub struct Holding {
    pub index: nat,
    pub owners: nat,
}

/// The counter and the reservations that are out.
///
/// `count` is the value of the counter. It is an `int` so that a step which took
/// it below zero would show. Reservations are named by the order in which they
/// were made: `issued` is the name the next one gets.
pub struct Ledger {
    pub max: nat,
    pub count: int,
    pub issued: nat,
    pub live: Map<nat, Holding>,
}

/// One atomic step of some thread.
pub enum Event {
    /// The swap of an attempt that had read `seen` from the counter. The value
    /// may be stale by the time of the swap.
    Attempt { seen: nat },
    /// A clone of a handle of reservation `id`.
    Share { id: nat },
    /// The drop of a handle of reservation `id`.
    Discard { id: nat },
    /// The consumption of a handle of reservation `id` for its payload.
    Extract { id: nat },
}

impl Ledger {
    /// A ledger for `max` reservations with none out.
    pub open spec fn fresh(max: nat) -> Ledger {
        Ledger { max, count: 0, issued: 0, live: Map::empty() }
    }

    /// The swap goes through if the rule admits at `seen` and the counter still
    /// holds `seen`. It then makes a reservation with one owner. Otherwise
    /// nothing changes.
    pub open spec fn attempt(self, seen: nat) -> Ledger {
        match claim(seen, self.max) {
            Some(next) => if self.count == seen {
                Ledger {
                    count: next as int,
                    issued: self.issued + 1,
                    live: self.live.insert(self.issued, Holding { index: next, owners: 1 }),
                    ..self
                }
            } else {
                self
            },
            None => self,
        }
    }

    /// One owner more for reservation `id`. The counter stays.
    pub open spec fn share(self, id: nat) -> Ledger {
        if self.live.contains_key(id) {
            let held = self.live[id];
            Ledger { live: self.live.insert(id, Holding { owners: held.owners + 1, ..held }), ..self }
        } else {
            self
        }
    }

    /// One owner less for reservation `id`. With the last owner the reservation
    /// ends and one is taken from the counter.
    pub open spec fn give_up(self, id: nat) -> Ledger {
        if self.live.contains_key(id) {
            let held = self.live[id];
            if held.owners <= 1 {
                Ledger { count: self.count - 1, live: self.live.remove(id), ..self }
            } else {
                Ledger {
                    live: self.live.insert(id, Holding { owners: (held.owners - 1) as nat, ..held }),
                    ..self
                }
            }
        } else {
            self
        }
    }

    /// The ledger after `event`. A handle goes the same way whether it is dropped
    /// or consumed. An event on a reservation that is not out cannot happen, as
    /// there is no handle to act on; it leaves the ledger as it is.
    pub open spec fn step(self, event: Event) -> Ledger {
        match event {
            Event::Attempt { seen } => self.attempt(seen),
            Event::Share { id } => self.share(id),
            Event::Discard { id } => self.give_up(id),
            Event::Extract { id } => self.give_up(id),
        }
    }

    /// The ledger after `events`, in order.
    pub open spec fn run(self, events: Seq<Event>) -> Ledger
        decreases events.len(),
    {
        if events.len() == 0 {
            self
        } else {
            self.run(events.drop_last()).step(events.last())
        }
    }

    /// The number of reservations that are out.
    pub open spec fn holders(self) -> nat {
        self.live.dom().len()
    }

    /// The counter is the number of reservations that are out and is within
    /// `max`; every reservation that is out has an owner, an index from 1 to
    /// `max`, and a name that has been issued.
    pub open spec fn wf(self) -> bool {
        &&& self.live.dom().finite()
        &&& self.count == self.holders()
        &&& self.count <= self.max
        &&& forall|id: nat| #[trigger]
            self.live.contains_key(id) ==> {
                &&& id < self.issued
                &&& self.live[id].owners >= 1
                &&& 1 <= self.live[id].index <= self.max
            }
    }
}

/// `n` times the same event.
pub open spec fn repeated(event: Event, n: nat) -> Seq<Event> {
    Seq::new(n, |i: int| event)
}

/// The first `n` attempts of a thread that works alone on a fresh ledger: each
/// reads what the one before left.
pub open spec fn alone(n: nat) -> Seq<Event> {
    Seq::new(n, |i: int| Event::Attempt { seen: i as nat })
}

proof fn lemma_give_up_keeps_wf(ledger: Ledger, id: nat)
    requires
        ledger.wf(),
    ensures
        ledger.give_up(id).wf(),
{
    let after = ledger.give_up(id);
    if ledger.live.contains_key(id) {
        if ledger.live[id].owners <= 1 {
            assert(after.live.dom() =~= ledger.live.dom().remove(id));
        } else {
            assert(after.live.dom() =~= ledger.live.dom());
        }
    }
}

/// No step breaks a well-formed ledger.
pub proof fn lemma_step_keeps_wf(ledger: Ledger, event: Event)
    requires
        ledger.wf(),
    ensures
        ledger.step(event).wf(),
        ledger.step(event).max == ledger.max,
{
    let after = ledger.step(event);
    match event {
        Event::Attempt { seen } => {
            if claim(seen, ledger.max) is Some && ledger.count == seen {
                assert(!ledger.live.contains_key(ledger.issued));
                assert(after.live.dom() =~= ledger.live.dom().insert(ledger.issued));
            }
        },
        Event::Share { id } => {
            if ledger.live.contains_key(id) {
                assert(after.live.dom() =~= ledger.live.dom());
            }
        },
        Event::Discard { id } => {
            lemma_give_up_keeps_wf(ledger, id);
        },
        Event::Extract { id } => {
            lemma_give_up_keeps_wf(ledger, id);
        },
    }
}

/// No run breaks a well-formed ledger.
pub proof fn lemma_run_keeps_wf(ledger: Ledger, events: Seq<Event>)
    requires
        ledger.wf(),
    ensures
        ledger.run(events).wf(),
        ledger.run(events).max == ledger.max,
    decreases events.len(),
{
    if events.len() > 0 {
        lemma_run_keeps_wf(ledger, events.drop_last());
        lemma_step_keeps_wf(ledger.run(events.drop_last()), events.last());
    }
}

/// Capacity: after any run from a fresh ledger, however attempts, clones and
/// drops are interleaved and whatever the attempts had read, no more than `max`
/// reservations are out, and each carries an index from 1 to `max`.
pub proof fn lemma_never_over_capacity(max: nat, events: Seq<Event>)
    ensures
        Ledger::fresh(max).run(events).holders() <= max,
        forall|id: nat| #[trigger]
            Ledger::fresh(max).run(events).live.contains_key(id) ==> 1 <= Ledger::fresh(max).run(
                events,
            ).live[id].index <= max,
{
    lemma_run_keeps_wf(Ledger::fresh(max), events);
}

/// Accounting: after any run from a fresh ledger the counter is exactly the
/// number of reservations that are out. It is 0 when none is out, and only then.
pub proof fn lemma_count_is_holders(max: nat, events: Seq<Event>)
    ensures
        Ledger::fresh(max).run(events).count == Ledger::fresh(max).run(events).holders(),
        Ledger::fresh(max).run(events).count == 0 <==> Ledger::fresh(max).run(events).live
            == Map::<nat, Holding>::empty(),
{
    let ledger = Ledger::fresh(max).run(events);
    lemma_run_keeps_wf(Ledger::fresh(max), events);
    if ledger.count == 0 {
        assert(ledger.live.dom() =~= Set::<nat>::empty());
        assert(ledger.live =~= Map::<nat, Holding>::empty());
    }
}

/// A thread that works alone gets the indices in order: after `n` attempts on
/// a fresh ledger, with `n` within `max`, the reservations `0` to `n - 1` are out,
/// reservation `i` has index `i + 1`, and the counter is `n`.
pub proof fn lemma_alone_in_order(max: nat, n: nat)
    requires
        n <= max,
    ensures
        Ledger::fresh(max).run(alone(n)).max == max,
        Ledger::fresh(max).run(alone(n)).count == n,
        Ledger::fresh(max).run(alone(n)).issued == n,
        Ledger::fresh(max).run(alone(n)).live == Map::new(
            |id: nat| id < n,
            |id: nat| Holding { index: id + 1, owners: 1 },
        ),
    decreases n,
{
    let expected = Map::new(|id: nat| id < n, |id: nat| Holding { index: id + 1, owners: 1 });
    if n == 0 {
        assert(Ledger::fresh(max).live =~= expected);
    } else {
        let before = (n - 1) as nat;
        lemma_alone_in_order(max, before);
        assert(alone(n).drop_last() =~= alone(before));
        assert(alone(n).last() == Event::Attempt { seen: before });
        let earlier = Ledger::fresh(max).run(alone(before));
        assert(Ledger::fresh(max).run(alone(n)) == earlier.attempt(before));
        assert(claim(before, max) == Some(n));
        assert(earlier.attempt(before).live =~= expected);
    }
}

/// The swap is the one point where attempts meet. It makes a reservation
/// exactly when the counter is below `max` and still holds what the attempt
/// had read; the reservation then carries the new count as its index.
/// Otherwise nothing changes: not at a full ledger, and not with a stale value.
pub proof fn lemma_attempt_outcome(ledger: Ledger, seen: nat)
    ensures
        ledger.count == seen && seen < ledger.max ==> {
            &&& ledger.step(Event::Attempt { seen }).count == ledger.count + 1
            &&& ledger.step(Event::Attempt { seen }).live == ledger.live.insert(
                ledger.issued,
                Holding { index: seen + 1, owners: 1 },
            )
        },
        ledger.count != seen || seen >= ledger.max ==> ledger.step(Event::Attempt { seen })
            == ledger,
{
}

/// A reservation that has ended does not come back: its name is not given out
/// again, whatever happens later.
pub proof fn lemma_release_is_final(ledger: Ledger, id: nat, events: Seq<Event>)
    requires
        id < ledger.issued,
        !ledger.live.contains_key(id),
    ensures
        !ledger.run(events).live.contains_key(id),
        ledger.run(events).issued >= ledger.issued,
    decreases events.len(),
{
    if events.len() > 0 {
        lemma_release_is_final(ledger, id, events.drop_last());
    }
}

/// Clones do not move the counter and do not add a reservation.
pub proof fn lemma_clones_keep_count(ledger: Ledger, id: nat, clones: nat)
    requires
        ledger.live.contains_key(id),
    ensures
        ledger.run(repeated(Event::Share { id }, clones)).count == ledger.count,
        ledger.run(repeated(Event::Share { id }, clones)).live.dom() == ledger.live.dom(),
        ledger.run(repeated(Event::Share { id }, clones)).live == ledger.live.insert(
            id,
            Holding { owners: ledger.live[id].owners + clones, ..ledger.live[id] },
        ),
    decreases clones,
{
    let event = Event::Share { id };
    let raised = Holding { owners: ledger.live[id].owners + clones, ..ledger.live[id] };
    if clones == 0 {
        assert(ledger.live =~= ledger.live.insert(id, raised));
    } else {
        let before = (clones - 1) as nat;
        lemma_clones_keep_count(ledger, id, before);
        assert(repeated(event, clones).drop_last() =~= repeated(event, before));
        assert(ledger.run(repeated(event, clones)).live =~= ledger.live.insert(id, raised));
    }
    assert(ledger.live.insert(id, raised).dom() =~= ledger.live.dom());
}

/// Handles given up one after the other, by drop or by consumption: as long as
/// an owner remains the counter stays and the reservation is out; the last one
/// takes exactly one from the counter and ends the reservation.
pub proof fn lemma_last_owner_releases(ledger: Ledger, id: nat, ends: Seq<Event>)
    requires
        ledger.live.contains_key(id),
        ledger.live[id].owners >= 1,
        ends.len() <= ledger.live[id].owners,
        forall|i: int|
            0 <= i < ends.len() ==> #[trigger] ends[i] == (Event::Discard { id }) || ends[i] == (
            Event::Extract { id }),
    ensures
        ends.len() < ledger.live[id].owners ==> {
            &&& ledger.run(ends).count == ledger.count
            &&& ledger.run(ends).live == ledger.live.insert(
                id,
                Holding { owners: (ledger.live[id].owners - ends.len()) as nat, ..ledger.live[id] },
            )
        },
        ends.len() == ledger.live[id].owners ==> {
            &&& ledger.run(ends).count == ledger.count - 1
            &&& ledger.run(ends).live == ledger.live.remove(id)
        },
    decreases ends.len(),
{
    let held = ledger.live[id];
    if ends.len() == 0 {
        assert(ledger.live =~= ledger.live.insert(id, held));
    } else {
        let earlier = ends.drop_last();
        lemma_last_owner_releases(ledger, id, earlier);
        let before = ledger.run(earlier);
        assert(before.step(ends.last()) == before.give_up(id));
        if ends.len() < held.owners {
            assert(ledger.run(ends).live =~= ledger.live.insert(
                id,
                Holding { owners: (held.owners - ends.len()) as nat, ..held },
            ));
        } else {
            assert(ledger.run(ends).live =~= ledger.live.remove(id));
        }
    }
}

/// A slot cloned `clones` times and then dropped by all its owners takes one
/// from the counter in all, not one for each owner.
pub proof fn lemma_clones_release_once(ledger: Ledger, id: nat, clones: nat)
    requires
        ledger.live.contains_key(id),
        ledger.live[id].owners == 1,
    ensures
        ledger.run(repeated(Event::Share { id }, clones)).run(
            repeated(Event::Discard { id }, clones + 1),
        ).count == ledger.count - 1,
        ledger.run(repeated(Event::Share { id }, clones)).run(
            repeated(Event::Discard { id }, clones + 1),
        ).live == ledger.live.remove(id),
{
    let shared = ledger.run(repeated(Event::Share { id }, clones));
    lemma_clones_keep_count(ledger, id, clones);
    lemma_last_owner_releases(shared, id, repeated(Event::Discard { id }, clones + 1));
    assert(shared.live.remove(id) =~= ledger.live.remove(id));
}

/// Consuming a handle for its payload leaves the reservation alone while
/// another owner remains, and releases it when the handle was the last.
pub proof fn lemma_extract_keeps_reservation(ledger: Ledger, id: nat)
    requires
        ledger.live.contains_key(id),
        ledger.live[id].owners >= 1,
    ensures
        ledger.step(Event::Extract { id }) == ledger.step(Event::Discard { id }),
        ledger.live[id].owners > 1 ==> {
            &&& ledger.step(Event::Extract { id }).count == ledger.count
            &&& ledger.step(Event::Extract { id }).live.contains_key(id)
            &&& ledger.step(Event::Extract { id }).live[id].owners == ledger.live[id].owners - 1
        },
        ledger.live[id].owners == 1 ==> {
            &&& ledger.step(Event::Extract { id }).count == ledger.count - 1
            &&& !ledger.step(Event::Extract { id }).live.contains_key(id)
        },
{
}

} // verus!
