use std::sync::atomic::{AtomicBool, AtomicU32, Ordering};

use metrique::atomics::{decrement_update, increment_count, Counter};
use metrique::close_value::CloseValue;

#[test]
fn increment_scoped() {
    let counter = Counter::new(0);
    let (guard, count) = counter.increment_scoped();
    assert_eq!(count, 1);
    drop(guard);
    assert_eq!(counter.0.load(Ordering::Relaxed), 0);
}

#[test]
fn increment_scoped_static() {
    let counter: &'static Counter = Box::leak(Box::new(Counter::new(0)));
    let (guard, count) = counter.increment_scoped();
    assert_eq!(count, 1);
    drop(guard);
    assert_eq!(counter.0.load(Ordering::Relaxed), 0);
}

#[test]
fn counter_guard_close_value() {
    let counter = Counter::new(0);
    let (guard, _) = counter.increment_scoped();
    // CloseValue reads the current count (1) without decrementing.
    assert_eq!((&guard).close(), 1);
    // Guard still decrements on drop.
    drop(guard);
    assert_eq!(counter.0.load(Ordering::Relaxed), 0);
}

#[test]
fn counter_add_set_increment() {
    let counter = Counter::new(5);
    counter.increment();
    counter.add(10);
    assert_eq!((&counter).close(), 16);
    counter.set(3);
    assert_eq!(counter.close(), 3);
}

#[test]
fn guard_never_decrements_below_zero() {
    let counter = Counter::new(0);
    let (guard, _) = counter.increment_scoped();
    counter.set(0);
    drop(guard);
    assert_eq!(counter.0.load(Ordering::Relaxed), 0);
    assert_eq!(decrement_update(0), Some(0));
    assert_eq!(decrement_update(7), Some(6));
}

#[test]
fn increment_scoped_wraps_at_max() {
    let counter = Counter::new(u64::MAX);
    let (guard, count) = counter.increment_scoped();
    assert_eq!(count, 0);
    drop(guard);
}

#[test]
fn atomics_close_to_their_value() {
    assert_eq!(AtomicU32::new(9).close(), 9);
    assert!((&AtomicBool::new(true)).close());
}

#[test]
fn increment_count_is_one_more_wrapping() {
    assert_eq!(increment_count(0), 1);
    assert_eq!(increment_count(41), 42);
    assert_eq!(increment_count(u64::MAX), 0);
}
