use sync_harness::counter::{AtomicCounter, UnsynchronizedCounter};
use sync_harness::runner::{run_atomic, run_unsynchronized};
use sync_harness::schedule::{round_robin, sequential};

#[test]
fn atomic_counter_starts_at_zero() {
    assert_eq!(AtomicCounter::new().read(), 0);
}

#[test]
fn atomic_increment_returns_the_value_from_before() {
    let mut counter = AtomicCounter::with_value(41);
    assert_eq!(counter.increment(), 41);
    assert_eq!(counter.read(), 42);
}

#[test]
fn atomic_increment_wraps_round() {
    let mut counter = AtomicCounter::with_value(i32::MAX);
    assert_eq!(counter.increment(), i32::MAX);
    assert_eq!(counter.read(), i32::MIN);
}

#[test]
fn atomic_run_of_a_thousand_by_a_thousand() {
    let mut counter = AtomicCounter::new();
    assert_eq!(run_atomic(&mut counter, 1000, 1000), 1_000_000);
    assert_eq!(counter.read(), 1_000_000);
}

#[test]
fn atomic_run_adds_to_what_is_there() {
    let mut counter = AtomicCounter::with_value(5);
    assert_eq!(run_atomic(&mut counter, 3, 4), 17);
}

#[test]
fn atomic_run_wraps_round() {
    let mut counter = AtomicCounter::with_value(i32::MAX - 5);
    assert_eq!(run_atomic(&mut counter, 2, 3), i32::MIN);
    let mut counter = AtomicCounter::with_value(i32::MAX - 5);
    assert_eq!(run_atomic(&mut counter, 4, 2), i32::MIN + 2);
}

#[test]
fn atomic_run_without_workers_or_operations() {
    let mut counter = AtomicCounter::new();
    assert_eq!(run_atomic(&mut counter, 0, 1000), 0);
    assert_eq!(run_atomic(&mut counter, 1000, 0), 0);
    assert_eq!(run_atomic(&mut counter, 0, 0), 0);
    let mut counter = AtomicCounter::with_value(-7);
    assert_eq!(run_atomic(&mut counter, 0, 9), -7);
    assert_eq!(run_atomic(&mut counter, 9, 0), -7);
}

#[test]
fn unsynchronized_counter_halves() {
    let mut counter = UnsynchronizedCounter::new();
    assert_eq!(counter.load(), 0);
    counter.store(9);
    assert_eq!(counter.read(), 9);
    counter.increment();
    assert_eq!(counter.read(), 10);
}

#[test]
fn unsynchronized_increment_wraps_round() {
    let mut counter = UnsynchronizedCounter::with_value(i32::MAX);
    counter.increment();
    assert_eq!(counter.read(), i32::MIN);
}

#[test]
fn unsynchronized_run_without_interleaving_loses_nothing() {
    let mut counter = UnsynchronizedCounter::new();
    let schedule = sequential(1000, 2000);
    assert_eq!(run_unsynchronized(&mut counter, 1000, &schedule), 1_000_000);
}

#[test]
fn unsynchronized_run_in_lockstep_loses_updates() {
    let mut counter = UnsynchronizedCounter::new();
    let schedule = round_robin(1000, 2000);
    assert_eq!(run_unsynchronized(&mut counter, 1000, &schedule), 1000);
}

#[test]
fn unsynchronized_counter_is_not_reliable() {
    let mut results = Vec::new();
    let schedules = vec![
        sequential(1000, 2000),
        round_robin(1000, 2000),
        [sequential(500, 2000), round_robin(500, 2000).iter().map(|w| w + 500).collect()]
            .concat(),
    ];
    for schedule in &schedules {
        let mut counter = UnsynchronizedCounter::new();
        let value = run_unsynchronized(&mut counter, 1000, schedule);
        assert!(0 <= value && value <= 1_000_000);
        results.push(value);
    }
    assert_eq!(results, vec![1_000_000, 1000, 501_000]);
    assert!(results.iter().any(|value| *value != 1_000_000));
}

#[test]
fn unsynchronized_lost_update_of_two_workers() {
    // Both load 0, both store 1: one increment is lost.
    let mut counter = UnsynchronizedCounter::new();
    assert_eq!(run_unsynchronized(&mut counter, 2, &vec![0, 1, 0, 1]), 1);
    // Worker 1 stores over two finished increments of worker 0.
    let mut counter = UnsynchronizedCounter::new();
    assert_eq!(run_unsynchronized(&mut counter, 2, &vec![1, 0, 0, 0, 0, 1]), 1);
    // No interleaving, nothing lost.
    let mut counter = UnsynchronizedCounter::new();
    assert_eq!(run_unsynchronized(&mut counter, 2, &vec![0, 0, 1, 1]), 2);
}

#[test]
fn unsynchronized_run_ignores_unknown_workers_and_unfinished_increments() {
    let mut counter = UnsynchronizedCounter::with_value(3);
    assert_eq!(run_unsynchronized(&mut counter, 2, &vec![2, 7, 0, 0, 1]), 4);
}

#[test]
fn unsynchronized_run_without_workers_or_steps() {
    let mut counter = UnsynchronizedCounter::with_value(11);
    assert_eq!(run_unsynchronized(&mut counter, 0, &vec![0, 0, 1, 1]), 11);
    assert_eq!(run_unsynchronized(&mut counter, 4, &Vec::new()), 11);
    assert_eq!(run_unsynchronized(&mut counter, 4, &sequential(4, 0)), 11);
    assert_eq!(run_unsynchronized(&mut counter, 0, &sequential(0, 8)), 11);
}
