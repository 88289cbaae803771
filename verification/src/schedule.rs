//! Schedules: the order in which concurrent workers take their steps.
//!
//! A schedule is a sequence of worker numbers. Its entry at position `i`
//! names the worker that takes the `i`-th step of the whole run. What a step
//! is depends on the strategy that the workers operate on. Every
//! interleaving of the workers is some schedule, so a statement about all
//! schedules is a statement about all interleavings.

use vstd::prelude::*;

verus! {

/// How many steps of `schedule` belong to `worker`.
pub open spec fn occurrences(schedule: Seq<usize>, worker: int) -> nat
    decreases schedule.len(),
{
    if schedule.len() == 0 {
        0
    } else {
        occurrences(schedule.drop_last(), worker) + if schedule.last() == worker {
            1nat
        } else {
            0nat
        }
    }
}

/// How many steps of `schedule` belong to a worker with a number below
/// `workers`: the steps that are taken when `workers` workers exist.
pub open spec fn valid_steps(schedule: Seq<usize>, workers: int) -> nat
    decreases schedule.len(),
{
    if schedule.len() == 0 {
        0
    } else {
        valid_steps(schedule.drop_last(), workers) + if schedule.last() < workers {
            1nat
        } else {
            0nat
        }
    }
}

/// `schedule` runs `workers` workers to completion, each for exactly `steps`
/// steps, and holds nothing else.
pub open spec fn complete(schedule: Seq<usize>, workers: int, steps: int) -> bool {
    &&& forall|i: int| 0 <= i < schedule.len() ==> (#[trigger] schedule[i]) < workers
    &&& forall|w: int| 0 <= w < workers ==> #[trigger] occurrences(schedule, w) == steps
}

/// The steps below `workers + 1` are those below `workers` and those of
/// worker `workers` itself.
pub proof fn lemma_valid_steps_split(schedule: Seq<usize>, workers: int)
    requires
        0 <= workers,
    ensures
        valid_steps(schedule, workers + 1) == valid_steps(schedule, workers) + occurrences(
            schedule,
            workers,
        ),
    decreases schedule.len(),
{
    if schedule.len() > 0 {
        lemma_valid_steps_split(schedule.drop_last(), workers);
    }
}

/// No step is valid when no worker exists, and at most every step is.
pub proof fn lemma_valid_steps_bounds(schedule: Seq<usize>, workers: int)
    ensures
        valid_steps(schedule, workers) <= schedule.len(),
        workers <= 0 ==> valid_steps(schedule, workers) == 0,
        (forall|i: int| 0 <= i < schedule.len() ==> (#[trigger] schedule[i]) < workers)
            ==> valid_steps(schedule, workers) == schedule.len(),
    decreases schedule.len(),
{
    if schedule.len() > 0 {
        let front = schedule.drop_last();
        lemma_valid_steps_bounds(front, workers);
        if forall|i: int| 0 <= i < schedule.len() ==> (#[trigger] schedule[i]) < workers {
            assert forall|i: int| 0 <= i < front.len() implies (#[trigger] front[i]) < workers by {
                assert(front[i] == schedule[i]);
            }
        }
    }
}

/// Where each of the first `workers` workers takes `steps` steps, their steps
/// number `workers * steps`.
pub proof fn lemma_valid_steps_product(schedule: Seq<usize>, workers: int, steps: int)
    requires
        0 <= workers,
        forall|w: int| 0 <= w < workers ==> #[trigger] occurrences(schedule, w) == steps,
    ensures
        valid_steps(schedule, workers) == workers * steps,
    decreases workers,
{
    if workers == 0 {
        lemma_valid_steps_bounds(schedule, 0);
    } else {
        lemma_valid_steps_product(schedule, workers - 1, steps);
        lemma_valid_steps_split(schedule, workers - 1);
        assert(occurrences(schedule, workers - 1) == steps);
        assert((workers - 1) * steps + steps == workers * steps) by (nonlinear_arith);
    }
}

/// A complete schedule of `workers` workers with `steps` steps each has
/// `workers * steps` steps, all of them valid.
pub proof fn lemma_complete_len(schedule: Seq<usize>, workers: int, steps: int)
    requires
        0 <= workers,
        complete(schedule, workers, steps),
    ensures
        schedule.len() == workers * steps,
        valid_steps(schedule, workers) == workers * steps,
{
    lemma_valid_steps_product(schedule, workers, steps);
    lemma_valid_steps_bounds(schedule, workers);
}

/// Appending one step adds one to the count of the worker that takes it and
/// leaves the other counts as they were.
pub proof fn lemma_occurrences_push(schedule: Seq<usize>, step: usize, worker: int)
    ensures
        occurrences(schedule.push(step), worker) == occurrences(schedule, worker) + if step
            == worker {
            1nat
        } else {
            0nat
        },
{
    assert(schedule.push(step).drop_last() =~= schedule);
}

/// The schedule without any interleaving: worker 0 takes all its `steps`
/// steps, then worker 1 all of its own, and so on.
pub fn sequential(workers: usize, steps: usize) -> (schedule: Vec<usize>)
    ensures
        complete(schedule@, workers as int, steps as int),
        schedule@.len() == workers * steps,
        forall|i: int| 0 <= i < schedule@.len() ==> (#[trigger] schedule@[i]) == i / (steps as int),
{
    let mut schedule: Vec<usize> = Vec::new();
    let mut worker: usize = 0;
    while worker < workers
        invariant
            worker <= workers,
            schedule@.len() == worker * steps,
            forall|i: int| 0 <= i < schedule@.len() ==> (#[trigger] schedule@[i]) < worker,
            forall|i: int|
                0 <= i < schedule@.len() ==> (#[trigger] schedule@[i]) == i / (steps as int),
            forall|w: int| 0 <= w < worker ==> #[trigger] occurrences(schedule@, w) == steps,
            forall|w: int| worker <= w ==> #[trigger] occurrences(schedule@, w) == 0,
        decreases workers - worker,
    {
        let mut taken: usize = 0;
        while taken < steps
            invariant
                worker < workers,
                taken <= steps,
                schedule@.len() == worker * steps + taken,
                forall|i: int| 0 <= i < schedule@.len() ==> (#[trigger] schedule@[i]) <= worker,
                forall|i: int|
                    0 <= i < schedule@.len() ==> (#[trigger] schedule@[i]) == i / (steps as int),
                forall|w: int| 0 <= w < worker ==> #[trigger] occurrences(schedule@, w) == steps,
                occurrences(schedule@, worker as int) == taken,
                forall|w: int| worker < w ==> #[trigger] occurrences(schedule@, w) == 0,
            decreases steps - taken,
        {
            proof {
                let before = schedule@;
                assert forall|w: int|
                    occurrences(before.push(worker), w) == occurrences(before, w) + if worker
                        == w {
                        1nat
                    } else {
                        0nat
                    } by {
                    lemma_occurrences_push(before, worker, w);
                }
                lemma_quotient(worker as int, taken as int, steps as int);
            }
            schedule.push(worker);
            taken = taken + 1;
        }
        proof {
            assert(worker * steps + steps == (worker + 1) * steps) by (nonlinear_arith);
        }
        worker = worker + 1;
    }
    schedule
}

/// The schedule with the finest interleaving: in each of `steps` rounds every
/// worker takes one step, worker 0 first.
pub fn round_robin(workers: usize, steps: usize) -> (schedule: Vec<usize>)
    ensures
        complete(schedule@, workers as int, steps as int),
        schedule@.len() == workers * steps,
        forall|i: int|
            0 <= i < schedule@.len() ==> (#[trigger] schedule@[i]) == i % (workers as int),
{
    let mut schedule: Vec<usize> = Vec::new();
    let mut round: usize = 0;
    while round < steps
        invariant
            round <= steps,
            schedule@.len() == round * workers,
            forall|i: int| 0 <= i < schedule@.len() ==> (#[trigger] schedule@[i]) < workers,
            forall|i: int|
                0 <= i < schedule@.len() ==> (#[trigger] schedule@[i]) == i % (workers as int),
            forall|w: int| 0 <= w < workers ==> #[trigger] occurrences(schedule@, w) == round,
        decreases steps - round,
    {
        let mut worker: usize = 0;
        while worker < workers
            invariant
                round < steps,
                worker <= workers,
                schedule@.len() == round * workers + worker,
                forall|i: int| 0 <= i < schedule@.len() ==> (#[trigger] schedule@[i]) < workers,
                forall|i: int|
                    0 <= i < schedule@.len() ==> (#[trigger] schedule@[i]) == i % (
                    workers as int),
                forall|w: int|
                    0 <= w < worker ==> #[trigger] occurrences(schedule@, w) == round + 1,
                forall|w: int|
                    worker <= w < workers ==> #[trigger] occurrences(schedule@, w) == round,
            decreases workers - worker,
        {
            proof {
                let before = schedule@;
                assert forall|w: int|
                    occurrences(before.push(worker), w) == occurrences(before, w) + if worker
                        == w {
                        1nat
                    } else {
                        0nat
                    } by {
                    lemma_occurrences_push(before, worker, w);
                }
                lemma_remainder(round as int, worker as int, workers as int);
            }
            schedule.push(worker);
            worker = worker + 1;
        }
        proof {
            assert(round * workers + workers == (round + 1) * workers) by (nonlinear_arith);
        }
        round = round + 1;
    }
    proof {
        assert(steps * workers == workers * steps) by (nonlinear_arith);
    }
    schedule
}

/// Position `whole * size + rest`, with `rest` below `size`, lies in block
/// number `whole` of blocks of `size` positions.
pub proof fn lemma_quotient(whole: int, rest: int, size: int)
    requires
        0 <= whole,
        0 <= rest < size,
    ensures
        (whole * size + rest) / size == whole,
{
    vstd::arithmetic::div_mod::lemma_fundamental_div_mod_converse(
        whole * size + rest,
        size,
        whole,
        rest,
    );
}

/// Position `whole * size + rest`, with `rest` below `size`, is the
/// `rest`-th position of its block.
pub proof fn lemma_remainder(whole: int, rest: int, size: int)
    requires
        0 <= whole,
        0 <= rest < size,
    ensures
        (whole * size + rest) % size == rest,
{
    vstd::arithmetic::div_mod::lemma_fundamental_div_mod_converse(
        whole * size + rest,
        size,
        whole,
        rest,
    );
}

/// A worker that takes a step of the schedule takes it at some position.
pub proof fn lemma_occurs_at(schedule: Seq<usize>, worker: int) -> (position: int)
    requires
        occurrences(schedule, worker) > 0,
    ensures
        0 <= position < schedule.len(),
        schedule[position] == worker,
    decreases schedule.len(),
{
    if schedule.last() == worker {
        schedule.len() - 1
    } else {
        let position = lemma_occurs_at(schedule.drop_last(), worker);
        assert(schedule.drop_last()[position] == schedule[position]);
        position
    }
}

/// A worker that takes the step at `position` takes one step at least.
pub proof fn lemma_step_counts(schedule: Seq<usize>, position: int)
    requires
        0 <= position < schedule.len(),
    ensures
        occurrences(schedule, schedule[position] as int) >= 1,
    decreases schedule.len(),
{
    if position < schedule.len() - 1 {
        assert(schedule.drop_last()[position] == schedule[position]);
        lemma_step_counts(schedule.drop_last(), position);
    }
}

/// A worker that takes the steps at two positions takes two steps at least.
pub proof fn lemma_two_steps_count(schedule: Seq<usize>, first: int, second: int)
    requires
        0 <= first < second < schedule.len(),
        schedule[first] == schedule[second],
    ensures
        occurrences(schedule, schedule[first] as int) >= 2,
    decreases schedule.len(),
{
    let front = schedule.drop_last();
    assert(front[first] == schedule[first]);
    if second == schedule.len() - 1 {
        lemma_step_counts(front, first);
    } else {
        assert(front[second] == schedule[second]);
        lemma_two_steps_count(front, first, second);
    }
}

} // verus!
