use sync_harness::collection::MutexCollection;
use sync_harness::runner::run_collection;
use sync_harness::schedule::{round_robin, sequential};

#[test]
fn collection_starts_empty() {
    let collection = MutexCollection::new();
    assert_eq!(collection.len(), 0);
    assert_eq!(collection.snapshot(), Vec::<i32>::new());
}

#[test]
fn append_adds_at_the_end() {
    let mut collection = MutexCollection::new();
    collection.append(3);
    collection.append(1);
    collection.append(3);
    assert_eq!(collection.snapshot(), vec![3, 1, 3]);
    assert_eq!(collection.len(), 3);
}

#[test]
fn snapshot_is_a_copy() {
    let mut collection = MutexCollection::new();
    collection.append(1);
    let mut copy = collection.snapshot();
    copy.push(2);
    assert_eq!(collection.snapshot(), vec![1]);
}

#[test]
fn ten_workers_append_once_each() {
    let mut collection = MutexCollection::new();
    let values = vec![1; 10];
    let snapshot = run_collection(&mut collection, &values, &sequential(10, 1));
    assert_eq!(snapshot.len(), 10);
    assert_eq!(snapshot, vec![1; 10]);
    assert_eq!(collection.len(), 10);
}

#[test]
fn appends_land_in_the_order_of_the_schedule() {
    let mut collection = MutexCollection::new();
    collection.append(-1);
    let values = vec![10, 20, 30];
    let snapshot = run_collection(&mut collection, &values, &vec![2, 0, 1, 0]);
    assert_eq!(snapshot, vec![-1, 30, 10, 20, 10]);
}

#[test]
fn steps_of_unknown_workers_append_nothing() {
    let mut collection = MutexCollection::new();
    let snapshot = run_collection(&mut collection, &vec![5, 6], &vec![2, 1, 9, 0]);
    assert_eq!(snapshot, vec![6, 5]);
}

#[test]
fn collection_run_without_workers_or_steps() {
    let mut collection = MutexCollection::new();
    collection.append(4);
    assert_eq!(run_collection(&mut collection, &Vec::new(), &vec![0, 1, 2]), vec![4]);
    assert_eq!(run_collection(&mut collection, &vec![1, 2], &Vec::new()), vec![4]);
    assert_eq!(run_collection(&mut collection, &vec![1, 2], &sequential(2, 0)), vec![4]);
}

#[test]
fn a_thousand_appends_are_all_there() {
    let values: Vec<i32> = (0..1000).collect();
    let backwards: Vec<usize> = (0..1000).rev().collect();
    let shuffled: Vec<usize> = (0..1000).map(|i| (i * 7 + 3) % 1000).collect();
    for schedule in [sequential(1000, 1), round_robin(1000, 1), backwards, shuffled] {
        for _trial in 0..3 {
            let mut collection = MutexCollection::new();
            let snapshot = run_collection(&mut collection, &values, &schedule);
            assert_eq!(snapshot.len(), 1000);
            let expected: Vec<i32> = schedule.iter().map(|w| values[*w]).collect();
            assert_eq!(snapshot, expected);
            let mut sorted = snapshot.clone();
            sorted.sort();
            assert_eq!(sorted, values);
        }
    }
}
