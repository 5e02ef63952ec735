//! A limiter that admits at most `max` holders at a time.
//!
//! A [`RateLimiter`] counts the reservations that are out and admits a new one
//! only below its maximum. A [`Slot`] is one reservation together with a
//! payload; its clones share the reservation, and the end of the last of them
//! gives it back. No lock is taken anywhere: the count is one atomic word, moved
//! up by compare-and-swap and down by an atomic subtraction.
//!
//! The executable code lives in [`limiter`] and [`slot`]. The atomic word hides
//! its value from static reasoning, so what the count does over time is proved
//! of a model of the protocol, in [`ledger`]. The calls whose contracts are taken
//! on trust are gathered in [`trusted`].

pub mod ledger;
pub mod limiter;
pub mod slot;
pub mod trusted;

pub use limiter::RateLimiter;
pub use slot::Slot;
