//! The race: what becomes of an unsynchronised counter when the halves of
//! its workers' increments interleave.
//!
//! A worker increments in two steps, a load and a store. The model below
//! keeps, beside the counter, what each worker has loaded and not yet
//! stored, and moves one worker by one step at a time in the order that a
//! schedule gives. The laws say what holds of every schedule, and what two
//! schedules in particular lead to.

use crate::counter::{lemma_wrap_in_range, wrap_i32};
use crate::schedule::{
    complete, lemma_complete_len, lemma_quotient, lemma_remainder, lemma_valid_steps_bounds,
    valid_steps,
};
use vstd::prelude::*;

verus! {

/// A run of workers on an unsynchronised counter, part way through.
pub struct RacyState {
    /// The value that the counter stores.
    pub shared: int,
    /// For each worker, the value it has loaded and not yet stored back:
    /// `Some` between the two halves of an increment, `None` otherwise.
    pub pending: Seq<Option<int>>,
    /// How many increments have been completed by their store.
    pub stores: nat,
}

/// The state before any step: `workers` workers, none of them in the middle
/// of an increment.
pub open spec fn racy_start(value: int, workers: nat) -> RacyState {
    RacyState { shared: value, pending: Seq::new(workers, |w: int| None::<int>), stores: 0 }
}

/// One step of `worker`. A worker that is not in the middle of an increment
/// loads the stored value; one that is stores what it loaded plus one,
/// whatever the counter holds by then. A step of a worker that does not
/// exist changes nothing.
pub open spec fn racy_step(state: RacyState, worker: int) -> RacyState {
    if 0 <= worker < state.pending.len() {
        match state.pending[worker] {
            None => RacyState {
                shared: state.shared,
                pending: state.pending.update(worker, Some(state.shared)),
                stores: state.stores,
            },
            Some(loaded) => RacyState {
                shared: wrap_i32(loaded + 1),
                pending: state.pending.update(worker, None),
                stores: state.stores + 1,
            },
        }
    } else {
        state
    }
}

/// The state after the steps of `schedule`, taken in order from `start`.
pub open spec fn racy_run(start: RacyState, schedule: Seq<usize>) -> RacyState
    decreases schedule.len(),
{
    if schedule.len() == 0 {
        start
    } else {
        racy_step(racy_run(start, schedule.drop_last()), schedule.last() as int)
    }
}

/// Where no worker exists no step is taken: the run ends as it started.
pub proof fn lemma_racy_no_workers(value: int, schedule: Seq<usize>)
    ensures
        racy_run(racy_start(value, 0), schedule) == racy_start(value, 0),
    decreases schedule.len(),
{
    if schedule.len() > 0 {
        lemma_racy_no_workers(value, schedule.drop_last());
    }
}

/// How many workers are in the middle of an increment.
pub open spec fn pending_count(pending: Seq<Option<int>>) -> nat
    decreases pending.len(),
{
    if pending.len() == 0 {
        0
    } else {
        pending_count(pending.drop_last()) + if pending.last() is Some {
            1nat
        } else {
            0nat
        }
    }
}

/// A worker that loads is one more in the middle of an increment, and one
/// that stores is one fewer.
proof fn lemma_pending_count_update(pending: Seq<Option<int>>, worker: int, register: Option<int>)
    requires
        0 <= worker < pending.len(),
    ensures
        pending_count(pending.update(worker, register)) + if pending[worker] is Some {
            1nat
        } else {
            0nat
        } == pending_count(pending) + if register is Some {
            1nat
        } else {
            0nat
        },
    decreases pending.len(),
{
    let updated = pending.update(worker, register);
    if worker == pending.len() - 1 {
        assert(updated.drop_last() =~= pending.drop_last());
    } else {
        assert(updated.drop_last() =~= pending.drop_last().update(worker, register));
        lemma_pending_count_update(pending.drop_last(), worker, register);
    }
}

/// No worker of a fresh run is in the middle of an increment.
proof fn lemma_pending_count_start(value: int, workers: nat)
    ensures
        pending_count(racy_start(value, workers).pending) == 0,
    decreases workers,
{
    if workers > 0 {
        assert(racy_start(value, workers).pending.drop_last() =~= racy_start(
            value,
            (workers - 1) as nat,
        ).pending);
        lemma_pending_count_start(value, (workers - 1) as nat);
    }
}

/// What holds after every prefix of every schedule, as long as the counter
/// cannot wrap round: each valid step so far is a load or a store, and each
/// store follows a load of its own, so twice the completed increments plus
/// the increments under way are the valid steps; and neither the counter
/// nor a loaded value is below the start value or ahead of it by more than
/// the completed increments.
pub open spec fn racy_within(value: int, workers: nat, schedule: Seq<usize>) -> bool {
    let end = racy_run(racy_start(value, workers), schedule);
    &&& end.pending.len() == workers
    &&& 2 * end.stores + pending_count(end.pending) == valid_steps(schedule, workers as int)
    &&& value <= end.shared <= value + end.stores
    &&& forall|w: int|
        0 <= w < workers ==> ((#[trigger] end.pending[w]) matches Some(loaded) ==> value <= loaded
            <= value + end.stores)
}

/// However the workers interleave, an unsynchronised counter never runs
/// ahead of the increments that were completed, and these are at most half
/// the steps taken: updates can be lost, none can be made up.
pub proof fn lemma_racy_bound(value: int, workers: nat, schedule: Seq<usize>)
    requires
        i32::MIN <= value,
        value + schedule.len() / 2 <= i32::MAX,
    ensures
        racy_within(value, workers, schedule),
        value <= racy_run(racy_start(value, workers), schedule).shared <= value + schedule.len()
            / 2,
    decreases schedule.len(),
{
    let start = racy_start(value, workers);
    if schedule.len() == 0 {
        lemma_pending_count_start(value, workers);
    } else {
        let front = schedule.drop_last();
        let mover = schedule.last() as int;
        lemma_racy_bound(value, workers, front);
        lemma_valid_steps_bounds(front, workers as int);
        let before = racy_run(start, front);
        let end = racy_run(start, schedule);
        assert(end == racy_step(before, mover));
        if 0 <= mover < workers {
            match before.pending[mover] {
                None => {
                    lemma_pending_count_update(before.pending, mover, Some(before.shared));
                },
                Some(loaded) => {
                    lemma_pending_count_update(before.pending, mover, None);
                    assert(2 * before.stores + 1 <= front.len());
                    assert(loaded + 1 <= value + before.stores + 1);
                    lemma_wrap_in_range(loaded + 1);
                },
            }
        }
        lemma_valid_steps_bounds(schedule, workers as int);
    }
}

/// Where `workers` unsynchronised workers run to completion with `ops`
/// increments each, in whatever order, the counter ends between its start
/// value and the start value plus `workers * ops`.
pub proof fn lemma_unsynchronized_at_most(value: int, workers: nat, ops: nat, schedule: Seq<usize>)
    requires
        complete(schedule, workers as int, 2 * ops as int),
        i32::MIN <= value,
        value + workers * ops <= i32::MAX,
    ensures
        value <= racy_run(racy_start(value, workers), schedule).shared <= value + workers * ops,
{
    lemma_complete_len(schedule, workers as int, 2 * ops as int);
    assert(workers * (2 * ops) == 2 * (workers * ops)) by (nonlinear_arith);
    lemma_racy_bound(value, workers, schedule);
}

/// The state of a run without interleaving after the first `worker`
/// workers have finished and the next has taken `taken` steps: every
/// finished increment has moved the counter by one, and at most the worker
/// whose turn it is holds a loaded value, the one that the counter still
/// stores.
pub open spec fn sequential_state(
    value: int,
    workers: nat,
    ops: nat,
    worker: nat,
    taken: nat,
    state: RacyState,
) -> bool {
    let reached = value + worker * ops + taken / 2;
    &&& state.pending.len() == workers
    &&& state.shared == reached
    &&& forall|w: int|
        0 <= w < workers ==> (#[trigger] state.pending[w]) == if w == worker && taken % 2 == 1 {
            Some(reached)
        } else {
            None
        }
}

/// A run without interleaving is in the state that `sequential_state`
/// describes after each of its steps.
proof fn lemma_sequential_prefix(
    value: int,
    workers: nat,
    ops: nat,
    schedule: Seq<usize>,
    worker: nat,
    taken: nat,
)
    requires
        worker <= workers,
        worker < workers || taken == 0,
        taken < 2 * ops || taken == 0,
        worker * (2 * ops) + taken <= schedule.len(),
        forall|i: int| 0 <= i < schedule.len() ==> (#[trigger] schedule[i]) == i / (2 * ops as int),
        i32::MIN <= value,
        value + workers * ops <= i32::MAX,
    ensures
        sequential_state(
            value,
            workers,
            ops,
            worker,
            taken,
            racy_run(
                racy_start(value, workers),
                schedule.take((worker * (2 * ops) + taken) as int),
            ),
        ),
    decreases worker, taken,
{
    let start = racy_start(value, workers);
    let steps = worker * (2 * ops) + taken;
    if steps == 0 {
        assert(schedule.take(0).len() == 0);
        assert(worker * ops == 0) by (nonlinear_arith)
            requires
                worker * (2 * ops) + taken == 0,
        ;
    } else {
        assert(ops >= 1) by (nonlinear_arith)
            requires
                worker * (2 * ops) + taken > 0,
                taken < 2 * ops || taken == 0,
        ;
        let before_worker = if taken > 0 {
            worker
        } else {
            (worker - 1) as nat
        };
        let before_taken = if taken > 0 {
            (taken - 1) as nat
        } else {
            (2 * ops - 1) as nat
        };
        assert(worker > 0 || taken > 0) by (nonlinear_arith)
            requires
                worker * (2 * ops) + taken > 0,
        ;
        assert(before_worker * (2 * ops) + before_taken == steps - 1) by (nonlinear_arith)
            requires
                steps == worker * (2 * ops) + taken,
                taken > 0 ==> before_worker == worker && before_taken == taken - 1,
                taken == 0 ==> before_worker == worker - 1 && before_taken == 2 * ops - 1,
        ;
        lemma_sequential_prefix(value, workers, ops, schedule, before_worker, before_taken);
        let front = schedule.take(steps - 1);
        let prefix = schedule.take(steps as int);
        assert(prefix.drop_last() =~= front);
        assert(prefix.last() == schedule[steps - 1]);
        lemma_quotient(
            before_worker as int,
            before_taken as int,
            2 * ops as int,
        );
        assert(schedule[steps - 1] == before_worker);
        let before = racy_run(start, front);
        let after = racy_run(start, prefix);
        assert(after == racy_step(before, before_worker as int));
        assert(before_worker * ops + ops <= workers * ops) by (nonlinear_arith)
            requires
                before_worker < workers,
        ;
        assert(0 <= before_worker * ops) by (nonlinear_arith);
        assert((before_worker + 1) * ops == before_worker * ops + ops) by (nonlinear_arith);
        if before_taken % 2 == 1 {
            lemma_wrap_in_range(value + before_worker * ops + before_taken / 2 + 1);
        }
    }
}

/// Where the workers run one after the other, each finishing before the
/// next begins, no update is lost: the counter ends at the start value plus
/// `workers * ops`.
pub proof fn lemma_sequential_loses_nothing(
    value: int,
    workers: nat,
    ops: nat,
    schedule: Seq<usize>,
)
    requires
        schedule.len() == workers * (2 * ops),
        forall|i: int| 0 <= i < schedule.len() ==> (#[trigger] schedule[i]) == i / (2 * ops as int),
        i32::MIN <= value,
        value + workers * ops <= i32::MAX,
    ensures
        racy_run(racy_start(value, workers), schedule).shared == value + workers * ops,
{
    lemma_sequential_prefix(value, workers, ops, schedule, workers, 0);
    assert(schedule.take((workers * (2 * ops) + 0) as int) =~= schedule);
}

/// The state of a run in lockstep after `round` whole rounds and the steps
/// of the first `offset` workers in the next. In a round with an even number
/// every worker loads, and all of them load the same value; in the round
/// after it every worker stores that value plus one. A pair of rounds so
/// moves the counter by one, however many workers took part.
pub open spec fn lockstep_state(
    value: int,
    workers: nat,
    round: nat,
    offset: nat,
    state: RacyState,
) -> bool {
    let pairs = (round / 2) as int;
    &&& state.pending.len() == workers
    &&& if round % 2 == 0 {
        &&& state.shared == value + pairs
        &&& forall|w: int|
            0 <= w < workers ==> (#[trigger] state.pending[w]) == if w < offset {
                Some(value + pairs)
            } else {
                None
            }
    } else {
        &&& state.shared == if offset == 0 {
            value + pairs
        } else {
            value + pairs + 1
        }
        &&& forall|w: int|
            0 <= w < workers ==> (#[trigger] state.pending[w]) == if w < offset {
                None
            } else {
                Some(value + pairs)
            }
    }
}

/// A run in lockstep is in the state that `lockstep_state` describes after
/// each of its steps.
proof fn lemma_lockstep_prefix(
    value: int,
    workers: nat,
    ops: nat,
    schedule: Seq<usize>,
    round: nat,
    offset: nat,
)
    requires
        offset < workers,
        round * workers + offset <= schedule.len(),
        round < 2 * ops || (round == 2 * ops && offset == 0),
        forall|i: int| 0 <= i < schedule.len() ==> (#[trigger] schedule[i]) == i % (workers as int),
        i32::MIN <= value,
        value + ops <= i32::MAX,
    ensures
        lockstep_state(
            value,
            workers,
            round,
            offset,
            racy_run(racy_start(value, workers), schedule.take((round * workers + offset) as int)),
        ),
    decreases round, offset,
{
    let start = racy_start(value, workers);
    let steps = round * workers + offset;
    if round == 0 && offset == 0 {
        assert(steps == 0) by (nonlinear_arith)
            requires
                steps == round * workers + offset,
                round == 0,
                offset == 0,
        ;
        assert(schedule.take(0).len() == 0);
    } else {
        let before_round = if offset > 0 {
            round
        } else {
            (round - 1) as nat
        };
        let before_offset = if offset > 0 {
            (offset - 1) as nat
        } else {
            (workers - 1) as nat
        };
        assert(before_round * workers + before_offset == steps - 1) by (nonlinear_arith)
            requires
                steps == round * workers + offset,
                offset > 0 ==> before_round == round && before_offset == offset - 1,
                offset == 0 ==> before_round == round - 1 && before_offset == workers - 1,
        ;
        lemma_lockstep_prefix(value, workers, ops, schedule, before_round, before_offset);
        let front = schedule.take(steps - 1);
        let prefix = schedule.take(steps as int);
        assert(prefix.drop_last() =~= front);
        assert(prefix.last() == schedule[steps - 1]);
        lemma_remainder(
            before_round as int,
            before_offset as int,
            workers as int,
        );
        assert(schedule[steps - 1] == before_offset);
        let before = racy_run(start, front);
        let after = racy_run(start, prefix);
        assert(after == racy_step(before, before_offset as int));
        if before_round % 2 == 1 {
            lemma_wrap_in_range(value + before_round / 2 + 1);
        }
    }
}

/// Where the workers run in lockstep, every worker loading before any of
/// them stores, each round of increments moves the counter by one only: of
/// the `workers * ops` increments that were made, `ops` are left.
pub proof fn lemma_lockstep_keeps_one_in_each_round(
    value: int,
    workers: nat,
    ops: nat,
    schedule: Seq<usize>,
)
    requires
        workers >= 1,
        schedule.len() == workers * (2 * ops),
        forall|i: int| 0 <= i < schedule.len() ==> (#[trigger] schedule[i]) == i % (workers as int),
        i32::MIN <= value,
        value + ops <= i32::MAX,
    ensures
        racy_run(racy_start(value, workers), schedule).shared == value + ops,
{
    assert((2 * ops) * workers + 0 == workers * (2 * ops)) by (nonlinear_arith);
    lemma_lockstep_prefix(value, workers, ops, schedule, 2 * ops, 0);
    assert(schedule.take(((2 * ops) * workers + 0) as int) =~= schedule);
}

/// An unsynchronised counter cannot be relied on: with two workers or more
/// there is an interleaving, the lockstep, that runs every worker to
/// completion and still leaves the counter short of the increments made.
pub proof fn lemma_unsynchronized_loses_updates(
    value: int,
    workers: nat,
    ops: nat,
    schedule: Seq<usize>,
)
    requires
        workers >= 2,
        ops >= 1,
        complete(schedule, workers as int, 2 * ops as int),
        forall|i: int| 0 <= i < schedule.len() ==> (#[trigger] schedule[i]) == i % (workers as int),
        i32::MIN <= value,
        value + ops <= i32::MAX,
    ensures
        racy_run(racy_start(value, workers), schedule).shared == value + ops,
        racy_run(racy_start(value, workers), schedule).shared < value + workers * ops,
{
    lemma_complete_len(schedule, workers as int, 2 * ops as int);
    lemma_lockstep_keeps_one_in_each_round(value, workers, ops, schedule);
    assert(ops < workers * ops) by (nonlinear_arith)
        requires
            workers >= 2,
            ops >= 1,
    ;
}

} // verus!
