//! The abstract state of a shared counter and its atomic transitions.
//!
//! Every transition below is what happens inside one critical section: the
//! lock that guards the counter serialises them, so a concurrent run is a
//! sequence of these transitions in some order.

use vstd::prelude::*;

verus! {

/// The ways an operation on the counter can fail.
#[derive(Debug, Clone, Copy, PartialEq, Eq, Structural)]
pub enum CounterError {
    /// A previous holder of the lock terminated abnormally while holding it.
    LockPoisoned,
    /// The worker terminated through a fault instead of completing.
    WorkerPanicked,
    /// A negative start value or a negative number of increments was given.
    InvalidArgument,
}

/// How one worker stands.
pub struct WorkerState {
    /// Number of increments the worker was launched to perform.
    pub increments: nat,
    /// Number of increments it has completed.
    pub done: nat,
    /// Why the worker stopped before completing, if it did.
    pub fault: Option<CounterError>,
    /// Whether the worker's handle has been consumed by a join.
    pub joined: bool,
}

impl WorkerState {
    /// A freshly launched worker.
    pub open spec fn launched(increments: nat) -> WorkerState {
        WorkerState { increments, done: 0, fault: None, joined: false }
    }

    /// The worker has performed every increment it was launched for.
    pub open spec fn completed(self) -> bool {
        self.fault is None && self.done == self.increments
    }

    /// The worker will perform no further increment.
    pub open spec fn terminated(self) -> bool {
        self.fault is Some || self.done == self.increments
    }

    /// The worker still has an increment to perform.
    pub open spec fn running(self) -> bool {
        !self.terminated()
    }

    /// The worker's record is consistent, under a lock that is poisoned or
    /// not: it has not done more than it was launched for, its fault is one
    /// that a worker can stop with, a poisoned lock stopped it only where
    /// the lock is poisoned, and it was joined only after it stopped.
    pub open spec fn consistent(self, poisoned: bool) -> bool {
        &&& self.done <= self.increments
        &&& self.fault != Some(CounterError::InvalidArgument)
        &&& self.fault == Some(CounterError::LockPoisoned) ==> poisoned
        &&& self.joined ==> self.terminated()
    }

    /// The worker terminated abnormally.
    pub open spec fn panicked(self) -> bool {
        self.fault == Some(CounterError::WorkerPanicked)
    }

    /// What a join on this worker reports.
    pub open spec fn outcome(self) -> Result<(), CounterError> {
        match self.fault {
            None => Ok(()),
            Some(e) => Err(e),
        }
    }
}

/// Sum of the increments that the workers were launched to perform.
pub open spec fn planned_of(workers: Seq<WorkerState>) -> nat
    decreases workers.len(),
{
    if workers.len() == 0 {
        0
    } else {
        planned_of(workers.drop_last()) + workers.last().increments
    }
}

/// Sum of the increments that the workers have completed.
pub open spec fn completed_of(workers: Seq<WorkerState>) -> nat
    decreases workers.len(),
{
    if workers.len() == 0 {
        0
    } else {
        completed_of(workers.drop_last()) + workers.last().done
    }
}

/// Launching one more worker adds its increments to the plan and nothing to
/// what has been completed.
pub proof fn lemma_sums_push(workers: Seq<WorkerState>, worker: WorkerState)
    ensures
        planned_of(workers.push(worker)) == planned_of(workers) + worker.increments,
        completed_of(workers.push(worker)) == completed_of(workers) + worker.done,
{
    assert(workers.push(worker).drop_last() =~= workers);
}

/// Replacing one worker changes each sum by the difference at that worker.
pub proof fn lemma_sums_update(workers: Seq<WorkerState>, w: int, worker: WorkerState)
    requires
        0 <= w < workers.len(),
    ensures
        planned_of(workers.update(w, worker)) + workers[w].increments == planned_of(workers)
            + worker.increments,
        completed_of(workers.update(w, worker)) + workers[w].done == completed_of(workers)
            + worker.done,
    decreases workers.len(),
{
    let updated = workers.update(w, worker);
    if w == workers.len() - 1 {
        assert(updated.drop_last() =~= workers.drop_last());
    } else {
        lemma_sums_update(workers.drop_last(), w, worker);
        assert(updated.drop_last() =~= workers.drop_last().update(w, worker));
    }
}

/// No worker has completed more than it was launched for, so neither have
/// all of them together; where every worker is done the two sums agree.
pub proof fn lemma_completed_within_planned(workers: Seq<WorkerState>)
    requires
        forall|w: int| 0 <= w < workers.len() ==> (#[trigger] workers[w]).done <= workers[w].increments,
    ensures
        completed_of(workers) <= planned_of(workers),
        (forall|w: int| 0 <= w < workers.len() ==> (#[trigger] workers[w]).done == workers[w].increments)
            ==> completed_of(workers) == planned_of(workers),
        completed_of(workers) == planned_of(workers) ==> (forall|w: int|
            0 <= w < workers.len() ==> (#[trigger] workers[w]).done == workers[w].increments),
    decreases workers.len(),
{
    if workers.len() > 0 {
        let front = workers.drop_last();
        assert(forall|w: int| 0 <= w < front.len() ==> front[w] == workers[w]);
        lemma_completed_within_planned(front);
        if completed_of(workers) == planned_of(workers) {
            assert forall|w: int| 0 <= w < workers.len() implies (#[trigger] workers[w]).done
                == workers[w].increments by {
                if w < front.len() {
                    assert(front[w] == workers[w]);
                }
            }
        }
    }
}

/// Where no worker was launched for more than `bound` increments, the plan
/// is at most `bound` for each worker.
pub proof fn lemma_planned_bound(workers: Seq<WorkerState>, bound: nat)
    requires
        forall|w: int| 0 <= w < workers.len() ==> (#[trigger] workers[w]).increments <= bound,
    ensures
        planned_of(workers) <= workers.len() * bound,
    decreases workers.len(),
{
    if workers.len() > 0 {
        let front = workers.drop_last();
        assert(forall|w: int| 0 <= w < front.len() ==> front[w] == workers[w]);
        lemma_planned_bound(front, bound);
        assert(workers.len() * bound == front.len() * bound + bound) by (nonlinear_arith)
            requires
                workers.len() == front.len() + 1,
        ;
    }
}

/// Where every worker was launched for exactly `k` increments, the plan is
/// `k` times the number of workers.
pub proof fn lemma_planned_uniform(workers: Seq<WorkerState>, k: nat)
    requires
        forall|w: int| 0 <= w < workers.len() ==> (#[trigger] workers[w]).increments == k,
    ensures
        planned_of(workers) == workers.len() * k,
    decreases workers.len(),
{
    if workers.len() > 0 {
        let front = workers.drop_last();
        assert(forall|w: int| 0 <= w < front.len() ==> front[w] == workers[w]);
        lemma_planned_uniform(front, k);
        assert(workers.len() * k == front.len() * k + k) by (nonlinear_arith)
            requires
                workers.len() == front.len() + 1,
        ;
    }
}

/// The counter, its lock and the workers launched against it.
pub struct CounterState {
    /// The value the counter was seeded with.
    pub start: nat,
    /// The current value.
    pub value: nat,
    /// Whether the lock is poisoned.
    pub poisoned: bool,
    /// The workers, in the order in which they were launched.
    pub workers: Seq<WorkerState>,
}

impl CounterState {
    /// A counter seeded with `start`, with no worker launched.
    pub open spec fn init(start: nat) -> CounterState {
        CounterState { start, value: start, poisoned: false, workers: Seq::empty() }
    }

    /// `w` names a worker of this counter.
    pub open spec fn is_worker(self, w: int) -> bool {
        0 <= w < self.workers.len()
    }

    /// Sum of the increments that all workers were launched to perform.
    pub open spec fn planned(self) -> nat {
        planned_of(self.workers)
    }

    /// Sum of the increments that all workers have completed.
    pub open spec fn completed(self) -> nat {
        completed_of(self.workers)
    }

    /// Worker `w` can perform an acquire-increment-release cycle.
    pub open spec fn can_step(self, w: int) -> bool {
        self.is_worker(w) && self.workers[w].running()
    }

    /// Worker `w` has stopped and its handle is still outstanding.
    pub open spec fn can_join(self, w: int) -> bool {
        self.is_worker(w) && self.workers[w].terminated() && !self.workers[w].joined
    }

    /// Every worker launched so far has been joined.
    pub open spec fn all_joined(self) -> bool {
        forall|w: int| 0 <= w < self.workers.len() ==> (#[trigger] self.workers[w]).joined
    }

    /// Every worker launched so far has performed all of its increments.
    pub open spec fn all_completed(self) -> bool {
        forall|w: int| 0 <= w < self.workers.len() ==> (#[trigger] self.workers[w]).completed()
    }

    /// Some worker terminated abnormally while holding the lock.
    pub open spec fn some_worker_panicked(self) -> bool {
        exists|w: int| 0 <= w < self.workers.len() && (#[trigger] self.workers[w]).panicked()
    }

    /// The record of every worker is consistent.
    pub open spec fn workers_consistent(self) -> bool {
        forall|w: int|
            0 <= w < self.workers.len() ==> (#[trigger] self.workers[w]).consistent(self.poisoned)
    }

    /// Launching a worker that is to perform `increments` increments.
    pub open spec fn spawn(self, increments: nat) -> CounterState {
        CounterState { workers: self.workers.push(WorkerState::launched(increments)), ..self }
    }

    /// One acquire-increment-release cycle of worker `w`. On a poisoned lock
    /// the value stays as it is and the worker stops with `LockPoisoned`.
    pub open spec fn step(self, w: int) -> CounterState {
        if self.poisoned {
            CounterState {
                workers: self.workers.update(
                    w,
                    WorkerState { fault: Some(CounterError::LockPoisoned), ..self.workers[w] },
                ),
                ..self
            }
        } else {
            CounterState {
                value: self.value + 1,
                workers: self.workers.update(
                    w,
                    WorkerState { done: self.workers[w].done + 1, ..self.workers[w] },
                ),
                ..self
            }
        }
    }

    /// What the cycle of `step` reports to the worker.
    pub open spec fn step_result(self) -> Result<(), CounterError> {
        if self.poisoned {
            Err(CounterError::LockPoisoned)
        } else {
            Ok(())
        }
    }

    /// Worker `w` terminates abnormally while it holds the lock, before its
    /// increment took effect: the lock is poisoned, the value is untouched.
    pub open spec fn abort(self, w: int) -> CounterState {
        CounterState {
            poisoned: true,
            workers: self.workers.update(
                w,
                WorkerState { fault: Some(CounterError::WorkerPanicked), ..self.workers[w] },
            ),
            ..self
        }
    }

    /// Consuming the handle of worker `w`.
    pub open spec fn join(self, w: int) -> CounterState {
        CounterState {
            workers: self.workers.update(w, WorkerState { joined: true, ..self.workers[w] }),
            ..self
        }
    }

    /// The invariant of the counter: no increment is lost, and faults are
    /// recorded consistently.
    pub open spec fn inv(self) -> bool {
        &&& self.value == self.start + self.completed()
        &&& self.poisoned <==> self.some_worker_panicked()
        &&& self.workers_consistent()
    }
}

/// A fresh counter satisfies the invariant.
pub proof fn lemma_init_inv(start: nat)
    ensures
        CounterState::init(start).inv(),
        CounterState::init(start).all_joined(),
        CounterState::init(start).all_completed(),
{
}

/// Where the workers of `t` that panicked are just those of `s` that did,
/// some worker of `t` panicked if and only if some worker of `s` did.
proof fn lemma_same_panics(s: CounterState, t: CounterState)
    requires
        s.workers.len() <= t.workers.len(),
        forall|x: int|
            0 <= x < t.workers.len() ==> ((#[trigger] t.workers[x]).panicked() <==> x
                < s.workers.len() && s.workers[x].panicked()),
    ensures
        t.some_worker_panicked() == s.some_worker_panicked(),
{
    if s.some_worker_panicked() {
        let x = choose|x: int| 0 <= x < s.workers.len() && (#[trigger] s.workers[x]).panicked();
        assert(t.workers[x].panicked());
    }
    if t.some_worker_panicked() {
        let x = choose|x: int| 0 <= x < t.workers.len() && (#[trigger] t.workers[x]).panicked();
        assert(s.workers[x].panicked());
    }
}

/// A transition that replaces the record of worker `w` by a consistent one
/// and does not heal the lock leaves every record consistent.
proof fn lemma_update_consistent(s: CounterState, t: CounterState, w: int)
    requires
        s.workers_consistent(),
        s.is_worker(w),
        t.workers == s.workers.update(w, t.workers[w]),
        t.workers[w].consistent(t.poisoned),
        s.poisoned ==> t.poisoned,
    ensures
        t.workers_consistent(),
{
    assert forall|x: int| 0 <= x < t.workers.len() implies (#[trigger] t.workers[x]).consistent(
        t.poisoned,
    ) by {
        if x != w {
            assert(t.workers[x] == s.workers[x]);
        }
    }
}

/// Launching a worker keeps the invariant.
pub proof fn lemma_spawn_inv(s: CounterState, increments: nat)
    requires
        s.inv(),
    ensures
        s.spawn(increments).inv(),
{
    let t = s.spawn(increments);
    lemma_sums_push(s.workers, WorkerState::launched(increments));
    assert forall|x: int| 0 <= x < t.workers.len() implies (#[trigger] t.workers[x]).consistent(
        t.poisoned,
    ) && (t.workers[x].panicked() <==> x < s.workers.len() && s.workers[x].panicked()) by {
        if x < s.workers.len() {
            assert(t.workers[x] == s.workers[x]);
        }
    }
    lemma_same_panics(s, t);
}

/// One cycle of a running worker keeps the invariant.
pub proof fn lemma_step_inv(s: CounterState, w: int)
    requires
        s.inv(),
        s.can_step(w),
    ensures
        s.step(w).inv(),
{
    let t = s.step(w);
    lemma_sums_update(s.workers, w, t.workers[w]);
    lemma_same_panics(s, t);
    lemma_update_consistent(s, t, w);
}

/// A worker that terminates abnormally inside the critical section keeps
/// the invariant.
pub proof fn lemma_abort_inv(s: CounterState, w: int)
    requires
        s.inv(),
        s.can_step(w),
    ensures
        s.abort(w).inv(),
{
    let t = s.abort(w);
    lemma_sums_update(s.workers, w, t.workers[w]);
    assert(t.workers[w].panicked());
    lemma_update_consistent(s, t, w);
}

/// Joining a stopped worker keeps the invariant.
pub proof fn lemma_join_inv(s: CounterState, w: int)
    requires
        s.inv(),
        s.can_join(w),
    ensures
        s.join(w).inv(),
{
    let t = s.join(w);
    lemma_sums_update(s.workers, w, t.workers[w]);
    lemma_same_panics(s, t);
    lemma_update_consistent(s, t, w);
}

} // verus!
