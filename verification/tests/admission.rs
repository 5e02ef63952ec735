use slot_limiter::limiter::plan;
use slot_limiter::RateLimiter;
use std::sync::atomic::Ordering;

#[test]
fn simple_max_slots() {
    let limiter = RateLimiter::new(3);
    let slot1 = limiter.get_slot((), 1).unwrap();
    let slot2 = limiter.get_slot((), 1).unwrap();
    let slot3 = limiter.get_slot((), 1).unwrap();
    assert_eq!(slot1.reserved_index(), 1);
    assert_eq!(slot2.reserved_index(), 2);
    assert_eq!(slot3.reserved_index(), 3);
    assert_eq!(limiter.slots.load(Ordering::SeqCst), 3);
    drop(slot1);
    assert_eq!(limiter.slots.load(Ordering::SeqCst), 2);
    drop(slot2);
    assert_eq!(limiter.slots.load(Ordering::SeqCst), 1);
    drop(slot3);
    assert_eq!(limiter.slots.load(Ordering::SeqCst), 0);
}

#[test]
fn single_thread_loop() {
    let limiter = RateLimiter::new(3);
    for _ in 0..1000000 {
        assert_ne!(limiter.get_slot((), 1).unwrap().reserved_index(), 0);
    }
    assert_eq!(limiter.slots.load(Ordering::SeqCst), 0);
}

#[test]
fn new_limiter_is_empty() {
    let limiter = RateLimiter::new(7);
    assert_eq!(limiter.max, 7);
    assert_eq!(limiter.slots.load(Ordering::SeqCst), 0);
}

#[test]
fn plan_admits_below_max() {
    assert_eq!(plan(0, 3), Some(1));
    assert_eq!(plan(1, 3), Some(2));
    assert_eq!(plan(2, 3), Some(3));
    assert_eq!(plan(0, 1), Some(1));
    assert_eq!(plan(usize::MAX - 1, usize::MAX), Some(usize::MAX));
}

#[test]
fn plan_refuses_at_and_above_max() {
    assert_eq!(plan(3, 3), None);
    assert_eq!(plan(4, 3), None);
    assert_eq!(plan(0, 0), None);
    assert_eq!(plan(usize::MAX, usize::MAX), None);
    assert_eq!(plan(usize::MAX, 0), None);
}

#[test]
fn no_attempts_no_slot() {
    let limiter = RateLimiter::new(3);
    let outcome = limiter.get_slot(String::from("ticket"), 0);
    assert_eq!(outcome.err(), Some(String::from("ticket")));
    assert_eq!(limiter.slots.load(Ordering::SeqCst), 0);
}

#[test]
fn zero_capacity_never_admits() {
    let limiter = RateLimiter::new(0);
    let outcome = limiter.get_slot(41u32, 25);
    assert_eq!(outcome.err(), Some(41));
    assert_eq!(limiter.slots.load(Ordering::SeqCst), 0);
}

#[test]
fn full_limiter_hands_the_item_back() {
    let limiter = RateLimiter::new(2);
    let first = limiter.get_slot('a', 1).unwrap();
    let second = limiter.get_slot('b', 1).unwrap();
    let refused = limiter.get_slot('c', 20);
    assert_eq!(refused.err(), Some('c'));
    assert_eq!(limiter.slots.load(Ordering::SeqCst), 2);
    assert_eq!(*first, 'a');
    assert_eq!(*second, 'b');
}

#[test]
fn released_capacity_is_admitted_again() {
    let limiter = RateLimiter::new(2);
    let first = limiter.get_slot(1u8, 1).unwrap();
    let second = limiter.get_slot(2u8, 1).unwrap();
    assert!(limiter.get_slot(3u8, 3).is_err());
    drop(first);
    let third = limiter.get_slot(3u8, 1).unwrap();
    assert_eq!(*third, 3);
    assert_eq!(limiter.slots.load(Ordering::SeqCst), 2);
    drop(second);
    drop(third);
    assert_eq!(limiter.slots.load(Ordering::SeqCst), 0);
}

#[test]
fn index_is_the_count_after_reserving() {
    let limiter = RateLimiter::new(3);
    let slot1 = limiter.get_slot((), 1).unwrap();
    let slot2 = limiter.get_slot((), 1).unwrap();
    assert_eq!(slot1.reserved_index(), 1);
    assert_eq!(slot2.reserved_index(), 2);
    drop(slot1);
    let slot3 = limiter.get_slot((), 1).unwrap();
    assert_eq!(slot3.reserved_index(), 2);
    let slot4 = limiter.get_slot((), 1).unwrap();
    assert_eq!(slot4.reserved_index(), 3);
    assert_eq!(slot2.reserved_index(), 2);
}

#[test]
fn counter_reaches_zero_in_any_drop_order() {
    let orders: [[usize; 3]; 6] =
        [[0, 1, 2], [0, 2, 1], [1, 0, 2], [1, 2, 0], [2, 0, 1], [2, 1, 0]];
    for order in orders {
        let limiter = RateLimiter::new(3);
        let mut held = vec![
            Some(limiter.get_slot((), 1).unwrap()),
            Some(limiter.get_slot((), 1).unwrap()),
            Some(limiter.get_slot((), 1).unwrap()),
        ];
        let mut left: usize = 3;
        for which in order {
            assert_eq!(limiter.slots.load(Ordering::SeqCst), left);
            held[which] = None;
            left -= 1;
        }
        assert_eq!(limiter.slots.load(Ordering::SeqCst), 0);
    }
}

#[test]
fn slot_is_tied_to_its_own_limiter() {
    let one = RateLimiter::new(1);
    let other = RateLimiter::new(1);
    let slot = one.get_slot((), 1).unwrap();
    assert_eq!(one.slots.load(Ordering::SeqCst), 1);
    assert_eq!(other.slots.load(Ordering::SeqCst), 0);
    let second = other.get_slot((), 1).unwrap();
    drop(slot);
    assert_eq!(one.slots.load(Ordering::SeqCst), 0);
    assert_eq!(other.slots.load(Ordering::SeqCst), 1);
    drop(second);
    assert_eq!(other.slots.load(Ordering::SeqCst), 0);
}

#[test]
fn slot_outlives_its_limiter() {
    let limiter = RateLimiter::new(1);
    let counter = limiter.slots.clone();
    let slot = limiter.get_slot(5i64, 1).unwrap();
    drop(limiter);
    assert_eq!(counter.load(Ordering::SeqCst), 1);
    assert_eq!(*slot, 5);
    drop(slot);
    assert_eq!(counter.load(Ordering::SeqCst), 0);
}
