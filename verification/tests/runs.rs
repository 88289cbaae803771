use sync_harness::harness::DemonstrationHarness;
use sync_harness::runner::{join_all, RunError, WorkerOutcome};
use sync_harness::schedule::{round_robin, sequential};

#[test]
fn a_run_of_completed_workers_succeeds() {
    assert_eq!(join_all(&vec![WorkerOutcome::Completed; 4]), Ok(()));
    assert_eq!(join_all(&Vec::new()), Ok(()));
}

#[test]
fn a_fault_is_reported_once_for_the_run() {
    let outcomes = vec![
        WorkerOutcome::Completed,
        WorkerOutcome::Faulted,
        WorkerOutcome::Completed,
        WorkerOutcome::Faulted,
    ];
    assert_eq!(join_all(&outcomes), Err(RunError::WorkerFault { worker: 1, faulted: 2 }));
}

#[test]
fn an_unusable_lock_fails_the_run() {
    let outcomes = vec![WorkerOutcome::Completed, WorkerOutcome::LockUnusable];
    assert_eq!(join_all(&outcomes), Err(RunError::SynchronizationFailure));
}

#[test]
fn a_fault_comes_before_the_locks_it_broke() {
    let outcomes = vec![
        WorkerOutcome::LockUnusable,
        WorkerOutcome::Completed,
        WorkerOutcome::Faulted,
        WorkerOutcome::LockUnusable,
    ];
    assert_eq!(join_all(&outcomes), Err(RunError::WorkerFault { worker: 2, faulted: 1 }));
}

#[test]
fn standard_parameters() {
    let harness = DemonstrationHarness::standard();
    assert_eq!(harness.counter_workers, 1000);
    assert_eq!(harness.counter_ops, 1000);
    assert_eq!(harness.collection_workers, 10);
}

#[test]
fn standard_demonstration() {
    let harness = DemonstrationHarness::standard();
    let inputs = vec!["alice".to_string(), "bob".to_string(), "q".to_string(), "eve".to_string()];
    let report = harness.run(&round_robin(1000, 2000), &round_robin(10, 1), &inputs);
    assert_eq!(report.unsynchronized, 1000);
    assert_eq!(report.atomic, 1_000_000);
    assert_eq!(report.collection, vec![1; 10]);
    assert_eq!(report.registry, vec!["MS", "MJ", "alice", "bob"]);

    let report = harness.run(&sequential(1000, 2000), &sequential(10, 1), &Vec::new());
    assert_eq!(report.unsynchronized, 1_000_000);
    assert_eq!(report.atomic, 1_000_000);
    assert_eq!(report.collection.len(), 10);
    assert_eq!(report.registry, vec!["MS", "MJ"]);
}

#[test]
fn demonstration_without_workers() {
    let harness =
        DemonstrationHarness { counter_workers: 0, counter_ops: 1000, collection_workers: 0 };
    let report = harness.run(&sequential(3, 2), &sequential(3, 1), &Vec::new());
    assert_eq!(report.unsynchronized, 0);
    assert_eq!(report.atomic, 0);
    assert!(report.collection.is_empty());
    assert_eq!(report.registry, vec!["MS", "MJ"]);
}
