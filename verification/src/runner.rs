//! The workload runner: a number of workers, each performing a number of
//! operations on one strategy, and the value observed once all have
//! finished.
//!
//! Where the order of the workers' steps can change the result, the order
//! is an input: a schedule (see `crate::schedule`). The runner then
//! computes what that interleaving leads to, and the laws below say what
//! holds of every interleaving.

use crate::collection::MutexCollection;
use crate::counter::{
    lemma_wrap_in_range, lemma_wrap_step, wrap_i32, AtomicCounter, UnsynchronizedCounter,
};
use crate::race::{lemma_racy_no_workers, racy_run, racy_start, RacyState};
use crate::schedule::{
    complete, lemma_complete_len, lemma_occurs_at, lemma_two_steps_count,
    lemma_valid_steps_bounds, occurrences, valid_steps,
};
use vstd::prelude::*;

verus! {

/// Runs `worker_count` workers on an atomic counter, each incrementing it
/// `ops_per_worker` times, and returns the value read after the last of
/// them has finished.
///
/// An atomic increment is one step that does the same whoever takes it, so
/// every interleaving of the workers is the same sequence of
/// `worker_count * ops_per_worker` increments: the result does not depend
/// on the order. As long as the total stays within 32 bits it is exactly
/// the start value plus `worker_count * ops_per_worker`; with no worker or
/// no operation the counter is left as it was.
pub fn run_atomic(
    counter: &mut AtomicCounter,
    worker_count: usize,
    ops_per_worker: usize,
) -> (value: i32)
    ensures
        value == final(counter).value(),
        final(counter).value() == wrap_i32(old(counter).value() + worker_count * ops_per_worker),
        old(counter).value() + worker_count * ops_per_worker <= i32::MAX ==> value == old(
            counter,
        ).value() + worker_count * ops_per_worker,
        worker_count == 0 || ops_per_worker == 0 ==> value == old(counter).value(),
{
    let ghost start = counter.value();
    proof {
        counter.lemma_value_in_range();
        lemma_wrap_in_range(start);
    }
    let mut worker: usize = 0;
    while worker < worker_count
        invariant
            worker <= worker_count,
            counter.value() == wrap_i32(start + worker * ops_per_worker),
        decreases worker_count - worker,
    {
        let mut done: usize = 0;
        while done < ops_per_worker
            invariant
                done <= ops_per_worker,
                counter.value() == wrap_i32(start + worker * ops_per_worker + done),
            decreases ops_per_worker - done,
        {
            proof {
                lemma_wrap_step(start + worker * ops_per_worker + done);
            }
            counter.increment();
            done = done + 1;
        }
        proof {
            assert(worker * ops_per_worker + ops_per_worker == (worker + 1) * ops_per_worker)
                by (nonlinear_arith);
        }
        worker = worker + 1;
    }
    proof {
        assert(0 <= worker_count * ops_per_worker) by (nonlinear_arith);
        if start + worker_count * ops_per_worker <= i32::MAX {
            lemma_wrap_in_range(start + worker_count * ops_per_worker);
        }
        if worker_count == 0 || ops_per_worker == 0 {
            assert(worker_count * ops_per_worker == 0) by (nonlinear_arith)
                requires
                    worker_count == 0 || ops_per_worker == 0,
            ;
        }
    }
    counter.read()
}

/// Runs `worker_count` workers on an unsynchronised counter in the order
/// that `schedule` gives, and returns the value read after its last step.
///
/// Each step of a worker is one half of an increment, so a worker that
/// performs `n` increments takes `2 * n` steps. An increment whose store
/// has not come by the end of the schedule leaves the counter untouched.
pub fn run_unsynchronized(
    counter: &mut UnsynchronizedCounter,
    worker_count: usize,
    schedule: &Vec<usize>,
) -> (value: i32)
    ensures
        value == final(counter).value(),
        final(counter).value() == racy_run(
            racy_start(old(counter).value(), worker_count as nat),
            schedule@,
        ).shared,
        worker_count == 0 || schedule@.len() == 0 ==> value == old(counter).value(),
{
    let ghost start = racy_start(counter.value(), worker_count as nat);
    proof {
        if worker_count == 0 {
            lemma_racy_no_workers(counter.value(), schedule@);
        }
    }
    let mut registers: Vec<Option<i32>> = Vec::new();
    let mut worker: usize = 0;
    while worker < worker_count
        invariant
            worker <= worker_count,
            registers@.len() == worker,
            forall|w: int| 0 <= w < worker ==> (#[trigger] registers@[w]) is None,
        decreases worker_count - worker,
    {
        registers.push(None);
        worker = worker + 1;
    }
    assert(pending_of(registers@) =~= start.pending);
    let mut position: usize = 0;
    while position < schedule.len()
        invariant
            position <= schedule.len(),
            registers@.len() == worker_count,
            racy_run(start, schedule@.take(position as int)) == (RacyState {
                shared: counter.value(),
                pending: pending_of(registers@),
                stores: racy_run(start, schedule@.take(position as int)).stores,
            }),
        decreases schedule.len() - position,
    {
        let mover = schedule[position];
        proof {
            assert(schedule@.take(position + 1).drop_last() =~= schedule@.take(position as int));
        }
        if mover < worker_count {
            let ghost before = registers@;
            match registers[mover] {
                None => {
                    let loaded = counter.load();
                    registers.set(mover, Some(loaded));
                    assert(pending_of(registers@) =~= pending_of(before).update(
                        mover as int,
                        Some(loaded as int),
                    ));
                },
                Some(loaded) => {
                    counter.store(loaded.wrapping_add(1));
                    registers.set(mover, None);
                    assert(pending_of(registers@) =~= pending_of(before).update(
                        mover as int,
                        None,
                    ));
                },
            }
        }
        position = position + 1;
    }
    assert(schedule@.take(position as int) =~= schedule@);
    counter.read()
}

/// The loaded values of the workers' registers as integers.
pub open spec fn pending_of(registers: Seq<Option<i32>>) -> Seq<Option<int>> {
    registers.map_values(
        |r: Option<i32>|
            match r {
                None => None::<int>,
                Some(v) => Some(v as int),
            },
    )
}

/// What the steps of `schedule` append, in order: worker `w` appends
/// `values[w]` at each of its steps, and a step of a worker that does not
/// exist appends nothing.
pub open spec fn appended(values: Seq<i32>, schedule: Seq<usize>) -> Seq<i32>
    decreases schedule.len(),
{
    if schedule.len() == 0 {
        Seq::empty()
    } else if schedule.last() < values.len() {
        appended(values, schedule.drop_last()).push(values[schedule.last() as int])
    } else {
        appended(values, schedule.drop_last())
    }
}

/// Runs one worker for each entry of `values` on a collection in the order
/// that `schedule` gives, and returns a snapshot taken after its last step.
/// At each of its steps worker `w` appends `values[w]`.
///
/// Every append is one step, so each lands whole: the collection grows by
/// exactly the appends made, in the order in which they were made. With no
/// worker or no step it is left as it was.
pub fn run_collection(
    collection: &mut MutexCollection,
    values: &Vec<i32>,
    schedule: &Vec<usize>,
) -> (snapshot: Vec<i32>)
    ensures
        snapshot@ == final(collection)@,
        final(collection)@ == old(collection)@ + appended(values@, schedule@),
        values@.len() == 0 || schedule@.len() == 0 ==> final(collection)@ == old(collection)@,
{
    let ghost before = collection@;
    let mut position: usize = 0;
    assert(collection@ =~= before + appended(values@, schedule@.take(0)));
    while position < schedule.len()
        invariant
            position <= schedule.len(),
            collection@ == before + appended(values@, schedule@.take(position as int)),
        decreases schedule.len() - position,
    {
        let mover = schedule[position];
        proof {
            assert(schedule@.take(position + 1).drop_last() =~= schedule@.take(position as int));
        }
        if mover < values.len() {
            collection.append(values[mover]);
            assert(collection@ =~= before + appended(values@, schedule@.take(position + 1)));
        }
        position = position + 1;
    }
    proof {
        assert(schedule@.take(position as int) =~= schedule@);
        lemma_appended_len(values@, schedule@);
        lemma_valid_steps_bounds(schedule@, 0);
        if values@.len() == 0 || schedule@.len() == 0 {
            assert(collection@ =~= before);
        }
    }
    collection.snapshot()
}

/// As many elements are appended as the schedule has valid steps.
pub proof fn lemma_appended_len(values: Seq<i32>, schedule: Seq<usize>)
    ensures
        appended(values, schedule).len() == valid_steps(schedule, values.len() as int),
    decreases schedule.len(),
{
    if schedule.len() > 0 {
        lemma_appended_len(values, schedule.drop_last());
    }
}

/// Where every step of the schedule belongs to a worker that exists, the
/// element appended at step `i` is the value of the worker that took step
/// `i`: no append is lost, none lands twice, none lands out of turn.
pub proof fn lemma_appended_in_order(values: Seq<i32>, schedule: Seq<usize>)
    requires
        forall|i: int| 0 <= i < schedule.len() ==> (#[trigger] schedule[i]) < values.len(),
    ensures
        appended(values, schedule).len() == schedule.len(),
        forall|i: int|
            0 <= i < schedule.len() ==> (#[trigger] appended(values, schedule)[i])
                == values[schedule[i] as int],
    decreases schedule.len(),
{
    if schedule.len() > 0 {
        let front = schedule.drop_last();
        assert forall|i: int| 0 <= i < front.len() implies (#[trigger] front[i]) < values.len() by {
            assert(front[i] == schedule[i]);
        }
        lemma_appended_in_order(values, front);
        assert(schedule.last() == schedule[schedule.len() - 1]);
        assert forall|i: int| 0 <= i < schedule.len() implies (#[trigger] appended(
            values,
            schedule,
        )[i]) == values[schedule[i] as int] by {
            if i < front.len() {
                assert(front[i] == schedule[i]);
            }
        }
    }
}

/// The append of `worker` is in the collection: at some position the
/// schedule gave `worker` its turn, and the element that was appended at
/// that position is the value of `worker`.
pub open spec fn landed(values: Seq<i32>, schedule: Seq<usize>, worker: int) -> bool {
    exists|i: int|
        0 <= i < schedule.len() && (#[trigger] schedule[i]) == worker && appended(
            values,
            schedule,
        )[i] == values[worker]
}

/// Where each of `values.len()` workers appends once, in whatever order,
/// the collection grows by exactly `values.len()` elements; the element at
/// each new position is the value of the one worker whose turn that was;
/// no worker had two turns, so no append is there twice; and every
/// worker's append is there.
pub proof fn lemma_each_appends_once(values: Seq<i32>, schedule: Seq<usize>)
    requires
        complete(schedule, values.len() as int, 1),
    ensures
        appended(values, schedule).len() == values.len(),
        forall|i: int|
            0 <= i < values.len() ==> (#[trigger] appended(values, schedule)[i])
                == values[schedule[i] as int],
        forall|i: int, j: int|
            0 <= i < j < values.len() ==> (#[trigger] schedule[i]) != (#[trigger] schedule[j]),
        forall|w: int| 0 <= w < values.len() ==> #[trigger] landed(values, schedule, w),
{
    lemma_complete_len(schedule, values.len() as int, 1);
    lemma_appended_in_order(values, schedule);
    assert forall|i: int, j: int| 0 <= i < j < values.len() implies (#[trigger] schedule[i]) != (
    #[trigger] schedule[j]) by {
        if schedule[i] == schedule[j] {
            lemma_two_steps_count(schedule, i, j);
            assert(occurrences(schedule, schedule[i] as int) == 1);
        }
    }
    assert forall|w: int| 0 <= w < values.len() implies #[trigger] landed(values, schedule, w) by {
        assert(occurrences(schedule, w) == 1);
        let position = lemma_occurs_at(schedule, w);
        assert(schedule[position] == w);
    }
}

/// How one worker ended, as whoever joined it found.
#[derive(Clone, Copy, Debug, PartialEq, Eq, Structural)]
pub enum WorkerOutcome {
    /// The worker performed all its operations.
    Completed,
    /// The worker terminated abnormally in the middle of its work.
    Faulted,
    /// The worker found its lock unusable: an earlier holder had terminated
    /// while holding it.
    LockUnusable,
}

/// Why a run failed.
#[derive(Clone, Copy, Debug, PartialEq, Eq, Structural)]
pub enum RunError {
    /// A lock could not be acquired because it had become unusable, and no
    /// worker is known to have faulted. Fatal for the run, never retried.
    SynchronizationFailure,
    /// Workers terminated abnormally: `worker` is the first of them and
    /// `faulted` is their number.
    WorkerFault { worker: usize, faulted: usize },
}

impl WorkerOutcome {
    /// How a worker ends whose operation came to `done`: it has completed
    /// it, or it has found its lock unusable, or it has faulted.
    pub fn after(done: &Result<(), RunError>) -> (outcome: WorkerOutcome)
        ensures
            outcome == match *done {
                Ok(()) => WorkerOutcome::Completed,
                Err(RunError::SynchronizationFailure) => WorkerOutcome::LockUnusable,
                Err(RunError::WorkerFault { .. }) => WorkerOutcome::Faulted,
            },
    {
        match done {
            Ok(()) => WorkerOutcome::Completed,
            Err(RunError::SynchronizationFailure) => WorkerOutcome::LockUnusable,
            Err(RunError::WorkerFault { .. }) => WorkerOutcome::Faulted,
        }
    }
}

/// How many of `outcomes` are `Faulted`.
pub open spec fn faulted_count(outcomes: Seq<WorkerOutcome>) -> nat
    decreases outcomes.len(),
{
    if outcomes.len() == 0 {
        0
    } else {
        faulted_count(outcomes.drop_last()) + if outcomes.last() == WorkerOutcome::Faulted {
            1nat
        } else {
            0nat
        }
    }
}

/// The verdict on a run whose workers have all been joined, `outcomes[w]`
/// being how worker `w` ended.
///
/// The run succeeded if every worker completed. Otherwise it failed, with
/// one error for the whole run: a `WorkerFault` that names the first worker
/// that faulted and counts all that did, if any did; a
/// `SynchronizationFailure` if none faulted and some worker found its lock
/// unusable.
pub fn join_all(outcomes: &Vec<WorkerOutcome>) -> (verdict: Result<(), RunError>)
    ensures
        match verdict {
            Ok(()) => forall|w: int|
                0 <= w < outcomes@.len() ==> (#[trigger] outcomes@[w]) == WorkerOutcome::Completed,
            Err(RunError::WorkerFault { worker, faulted }) => {
                &&& worker < outcomes@.len()
                &&& outcomes@[worker as int] == WorkerOutcome::Faulted
                &&& forall|w: int|
                    0 <= w < worker ==> (#[trigger] outcomes@[w]) != WorkerOutcome::Faulted
                &&& faulted == faulted_count(outcomes@)
            },
            Err(RunError::SynchronizationFailure) => {
                &&& forall|w: int|
                    0 <= w < outcomes@.len() ==> (#[trigger] outcomes@[w]) != WorkerOutcome::Faulted
                &&& exists|w: int|
                    0 <= w < outcomes@.len() && (#[trigger] outcomes@[w])
                        == WorkerOutcome::LockUnusable
            },
        },
{
    let mut first: Option<usize> = None;
    let mut faulted: usize = 0;
    let mut unusable: bool = false;
    let mut position: usize = 0;
    while position < outcomes.len()
        invariant
            position <= outcomes.len(),
            faulted == faulted_count(outcomes@.take(position as int)),
            faulted <= position,
            match first {
                None => forall|w: int|
                    0 <= w < position ==> (#[trigger] outcomes@[w]) != WorkerOutcome::Faulted,
                Some(worker) => {
                    &&& worker < position
                    &&& outcomes@[worker as int] == WorkerOutcome::Faulted
                    &&& forall|w: int|
                        0 <= w < worker ==> (#[trigger] outcomes@[w]) != WorkerOutcome::Faulted
                },
            },
            unusable <==> exists|w: int|
                0 <= w < position && (#[trigger] outcomes@[w]) == WorkerOutcome::LockUnusable,
            !unusable && first is None ==> forall|w: int|
                0 <= w < position ==> (#[trigger] outcomes@[w]) == WorkerOutcome::Completed,
        decreases outcomes.len() - position,
    {
        proof {
            assert(outcomes@.take(position + 1).drop_last() =~= outcomes@.take(position as int));
        }
        match outcomes[position] {
            WorkerOutcome::Completed => {},
            WorkerOutcome::Faulted => {
                if first.is_none() {
                    first = Some(position);
                }
                faulted = faulted + 1;
            },
            WorkerOutcome::LockUnusable => {
                unusable = true;
            },
        }
        position = position + 1;
    }
    assert(outcomes@.take(position as int) =~= outcomes@);
    match first {
        Some(worker) => Err(RunError::WorkerFault { worker, faulted }),
        None => if unusable {
            Err(RunError::SynchronizationFailure)
        } else {
            Ok(())
        },
    }
}

} // verus!
