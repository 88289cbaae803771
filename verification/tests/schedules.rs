use sync_harness::schedule::{round_robin, sequential};

#[test]
fn sequential_schedule_runs_worker_after_worker() {
    assert_eq!(sequential(2, 3), vec![0, 0, 0, 1, 1, 1]);
    assert_eq!(sequential(3, 1), vec![0, 1, 2]);
}

#[test]
fn round_robin_schedule_runs_round_after_round() {
    assert_eq!(round_robin(2, 3), vec![0, 1, 0, 1, 0, 1]);
    assert_eq!(round_robin(3, 1), vec![0, 1, 2]);
}

#[test]
fn schedules_without_workers_or_steps_are_empty() {
    assert!(sequential(0, 5).is_empty());
    assert!(sequential(5, 0).is_empty());
    assert!(round_robin(0, 5).is_empty());
    assert!(round_robin(5, 0).is_empty());
}

#[test]
fn schedules_give_every_worker_its_steps() {
    for schedule in [sequential(7, 4), round_robin(7, 4)] {
        assert_eq!(schedule.len(), 28);
        for worker in 0..7 {
            assert_eq!(schedule.iter().filter(|w| **w == worker).count(), 4);
        }
    }
}
