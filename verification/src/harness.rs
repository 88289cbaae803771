//! The demonstration harness: runs every strategy once, in a fixed order, and
//! reports what each was seen to hold at the end.

use crate::collection::MutexCollection;
use crate::counter::{wrap_i32, AtomicCounter, UnsynchronizedCounter};
use crate::registry::{accepted_len, names_of, seed_names, LazyRwRegistry};
use crate::race::{lemma_unsynchronized_at_most, racy_run, racy_start};
use crate::runner::{
    appended, lemma_appended_len, run_atomic, run_collection, run_unsynchronized,
};
use crate::schedule::{complete, lemma_complete_len};
use vstd::prelude::*;

verus! {

/// The parameters of a demonstration. The harness has no other state.
#[derive(Clone, Copy, Debug)]
pub struct DemonstrationHarness {
    /// The workers of each of the two counter runs.
    pub counter_workers: usize,
    /// The increments of each worker of a counter run.
    pub counter_ops: usize,
    /// The workers of the collection run. Each appends once.
    pub collection_workers: usize,
}

/// What a demonstration observed, in the order in which it ran.
#[derive(Debug)]
pub struct DemoReport {
    /// The unsynchronised counter after its run.
    pub unsynchronized: i32,
    /// The atomic counter after its run.
    pub atomic: i32,
    /// The collection after its run.
    pub collection: Vec<i32>,
    /// The registry after the foreground loop.
    pub registry: Vec<String>,
}

/// The value that each worker of the collection run appends.
pub open spec fn appended_value() -> i32 {
    1
}

/// One `appended_value` for each worker of the collection run.
pub open spec fn collection_values(workers: usize) -> Seq<i32> {
    Seq::new(workers as nat, |w: int| appended_value())
}

impl DemonstrationHarness {
    /// The standard parameters: 1000 workers with 1000 increments each on
    /// the counters, and 10 workers on the collection.
    pub fn standard() -> (harness: Self)
        ensures
            harness.counter_workers == 1000,
            harness.counter_ops == 1000,
            harness.collection_workers == 10,
    {
        DemonstrationHarness { counter_workers: 1000, counter_ops: 1000, collection_workers: 10 }
    }

    /// Runs the race demonstration, the atomic demonstration, the mutex
    /// demonstration and the read-write-lock demonstration, each on a fresh
    /// strategy, and reports what each ended with.
    ///
    /// `race_schedule` interleaves the workers of the unsynchronised
    /// counter and `collection_schedule` those of the collection; `inputs`
    /// are the lines that the foreground loop of the registry receives.
    ///
    /// The atomic counter ends at the product of workers and increments,
    /// whatever happens. The unsynchronised counter, run to completion,
    /// ends anywhere from zero to that product. The collection, run to
    /// completion, holds one element for each worker. The registry holds
    /// its seed and then the lines before the first `q`.
    pub fn run(
        &self,
        race_schedule: &Vec<usize>,
        collection_schedule: &Vec<usize>,
        inputs: &Vec<String>,
    ) -> (report: DemoReport)
        ensures
            report.unsynchronized == racy_run(
                racy_start(0, self.counter_workers as nat),
                race_schedule@,
            ).shared,
            report.atomic == wrap_i32(self.counter_workers * self.counter_ops),
            report.collection@ == appended(
                collection_values(self.collection_workers),
                collection_schedule@,
            ),
            names_of(report.registry@) == seed_names() + names_of(inputs@).take(
                accepted_len(names_of(inputs@)) as int,
            ),
            self.counter_workers * self.counter_ops <= i32::MAX ==> {
                &&& report.atomic == self.counter_workers * self.counter_ops
                &&& complete(
                    race_schedule@,
                    self.counter_workers as int,
                    2 * self.counter_ops as int,
                ) ==> 0 <= report.unsynchronized <= report.atomic
            },
            complete(collection_schedule@, self.collection_workers as int, 1)
                ==> report.collection@.len() == self.collection_workers,
    {
        let mut racy = UnsynchronizedCounter::new();
        let unsynchronized = run_unsynchronized(&mut racy, self.counter_workers, race_schedule);

        let mut counter = AtomicCounter::new();
        let atomic = run_atomic(&mut counter, self.counter_workers, self.counter_ops);

        let values = self.values();
        let mut numbers = MutexCollection::new();
        let collection = run_collection(&mut numbers, &values, collection_schedule);

        let mut users = LazyRwRegistry::new();
        users.accept_all(inputs);
        let registry = users.read();

        proof {
            assert(collection@ =~= appended(values@, collection_schedule@));
            if self.counter_workers * self.counter_ops <= i32::MAX && complete(
                race_schedule@,
                self.counter_workers as int,
                2 * self.counter_ops as int,
            ) {
                lemma_unsynchronized_at_most(
                    0,
                    self.counter_workers as nat,
                    self.counter_ops as nat,
                    race_schedule@,
                );
            }
            if complete(collection_schedule@, self.collection_workers as int, 1) {
                lemma_complete_len(collection_schedule@, self.collection_workers as int, 1);
                lemma_appended_len(values@, collection_schedule@);
            }
        }
        DemoReport { unsynchronized, atomic, collection, registry }
    }

    /// The values that the workers of the collection run append.
    fn values(&self) -> (values: Vec<i32>)
        ensures
            values@ == collection_values(self.collection_workers),
    {
        let mut values: Vec<i32> = Vec::new();
        let mut worker: usize = 0;
        while worker < self.collection_workers
            invariant
                worker <= self.collection_workers,
                values@.len() == worker,
                forall|w: int| 0 <= w < worker ==> (#[trigger] values@[w]) == appended_value(),
            decreases self.collection_workers - worker,
        {
            values.push(1);
            worker = worker + 1;
        }
        assert(values@ =~= collection_values(self.collection_workers));
        values
    }
}

} // verus!
