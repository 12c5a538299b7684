//! A shared counter under concurrent increment, with bounded worker fan-out
//! and join synchronisation.
//!
//! [`SharedCounter`] is the state that lives behind the lock: the counter
//! value, the poison flag of the lock and a ledger of the workers launched
//! against the counter. Each method is one critical section. Callers that
//! run workers on threads keep a `SharedCounter` in a mutex and call these
//! methods while they hold it; because every method keeps the invariant of
//! [`model::CounterState`], the aggregate is right for every interleaving.

pub mod laws;
pub mod model;

use crate::counter::model::lemma_abort_inv;
use crate::counter::model::lemma_completed_within_planned;
use crate::counter::model::lemma_init_inv;
use crate::counter::model::lemma_join_inv;
use crate::counter::model::lemma_planned_bound;
use crate::counter::model::lemma_spawn_inv;
use crate::counter::model::lemma_step_inv;
use crate::counter::model::CounterError;
use crate::counter::model::CounterState;
use crate::counter::model::WorkerState;
use vstd::prelude::*;

verus! {

/// The ledger entry of one worker.
#[derive(Debug)]
struct WorkerRecord {
    increments: u64,
    done: u64,
    fault: Option<CounterError>,
    joined: bool,
}

impl View for WorkerRecord {
    type V = WorkerState;

    closed spec fn view(&self) -> WorkerState {
        WorkerState {
            increments: self.increments as nat,
            done: self.done as nat,
            fault: self.fault,
            joined: self.joined,
        }
    }
}

/// Stands for a launched worker. It is created by
/// [`SharedCounter::spawn_worker`] and consumed by [`SharedCounter::join`].
#[derive(Debug)]
pub struct WorkerHandle {
    id: usize,
}

impl WorkerHandle {
    /// The position of the worker among the workers of its counter.
    pub closed spec fn worker(&self) -> int {
        self.id as int
    }

    /// The position of the worker among the workers of its counter.
    pub fn id(&self) -> (w: usize)
        ensures
            w == self.worker(),
    {
        self.id
    }
}

/// The counter, the poison flag of its lock and the ledger of its workers.
#[derive(Debug)]
pub struct SharedCounter {
    start: u64,
    value: u128,
    poisoned: bool,
    workers: Vec<WorkerRecord>,
}

impl View for SharedCounter {
    type V = CounterState;

    closed spec fn view(&self) -> CounterState {
        CounterState {
            start: self.start as nat,
            value: self.value as nat,
            poisoned: self.poisoned,
            workers: Seq::new(self.workers@.len(), |w: int| self.workers@[w]@),
        }
    }
}

impl SharedCounter {
    /// The invariant of the counter holds and every number in it is one
    /// that `initialize` or `spawn_worker` accepted.
    pub closed spec fn wf(&self) -> bool {
        &&& self@.inv()
        &&& self.start <= i64::MAX
        &&& forall|w: int|
            0 <= w < self.workers@.len() ==> (#[trigger] self.workers@[w]).increments <= i64::MAX
    }

    /// A well-formed counter satisfies the invariant of its abstract state.
    pub proof fn lemma_wf_inv(&self)
        requires
            self.wf(),
        ensures
            self@.inv(),
    {
    }

    /// Constructs a counter seeded with `start`, with no worker launched. A
    /// negative `start` is rejected with `InvalidArgument`.
    pub fn initialize(start: i64) -> (r: Result<SharedCounter, CounterError>)
        ensures
            match r {
                Ok(c) => start >= 0 && c.wf() && c@ == CounterState::init(start as nat),
                Err(e) => start < 0 && e == CounterError::InvalidArgument,
            },
    {
        if start < 0 {
            return Err(CounterError::InvalidArgument);
        }
        let c = SharedCounter {
            start: start as u64,
            value: start as u128,
            poisoned: false,
            workers: Vec::new(),
        };
        proof {
            lemma_init_inv(start as nat);
            assert(c@.workers =~= Seq::<WorkerState>::empty());
        }
        Ok(c)
    }

    /// Launches a worker that is to perform `increments` cycles of
    /// [`SharedCounter::acquire_and_increment`], and returns its handle. A
    /// negative `increments` is rejected with `InvalidArgument`, and the
    /// counter is left as it was.
    pub fn spawn_worker(&mut self, increments: i64) -> (r: Result<WorkerHandle, CounterError>)
        requires
            old(self).wf(),
        ensures
            final(self).wf(),
            match r {
                Ok(h) => {
                    &&& increments >= 0
                    &&& h.worker() == old(self)@.workers.len()
                    &&& final(self)@ == old(self)@.spawn(increments as nat)
                },
                Err(e) => {
                    &&& increments < 0
                    &&& e == CounterError::InvalidArgument
                    &&& final(self)@ == old(self)@
                },
            },
    {
        if increments < 0 {
            return Err(CounterError::InvalidArgument);
        }
        let id = self.workers.len();
        self.workers.push(
            WorkerRecord { increments: increments as u64, done: 0, fault: None, joined: false },
        );
        proof {
            lemma_spawn_inv(old(self)@, increments as nat);
            assert(self@.workers =~= old(self)@.spawn(increments as nat).workers);
        }
        Ok(WorkerHandle { id })
    }

    /// One cycle of worker `worker`: with the lock held, the value goes up
    /// by one. On a poisoned lock the value stays as it is, the worker stops
    /// and `LockPoisoned` is returned.
    pub fn acquire_and_increment(&mut self, worker: usize) -> (r: Result<(), CounterError>)
        requires
            old(self).wf(),
            old(self)@.can_step(worker as int),
        ensures
            final(self).wf(),
            final(self)@ == old(self)@.step(worker as int),
            r == old(self)@.step_result(),
    {
        proof {
            lemma_step_inv(self@, worker as int);
            self.lemma_value_bound();
        }
        let record = &self.workers[worker];
        if self.poisoned {
            let stopped = WorkerRecord {
                increments: record.increments,
                done: record.done,
                fault: Some(CounterError::LockPoisoned),
                joined: record.joined,
            };
            self.workers.set(worker, stopped);
            assert(self@.workers =~= old(self)@.step(worker as int).workers);
            Err(CounterError::LockPoisoned)
        } else {
            let advanced = WorkerRecord {
                increments: record.increments,
                done: record.done + 1,
                fault: record.fault,
                joined: record.joined,
            };
            self.workers.set(worker, advanced);
            self.value = self.value + 1;
            assert(self@.workers =~= old(self)@.step(worker as int).workers);
            Ok(())
        }
    }

    /// Records that worker `worker` terminated abnormally while it held the
    /// lock, before its increment took effect. The lock is poisoned from
    /// then on; the value is untouched.
    pub fn panic_in_section(&mut self, worker: usize)
        requires
            old(self).wf(),
            old(self)@.can_step(worker as int),
        ensures
            final(self).wf(),
            final(self)@ == old(self)@.abort(worker as int),
    {
        proof {
            lemma_abort_inv(self@, worker as int);
        }
        let record = &self.workers[worker];
        let stopped = WorkerRecord {
            increments: record.increments,
            done: record.done,
            fault: Some(CounterError::WorkerPanicked),
            joined: record.joined,
        };
        self.workers.set(worker, stopped);
        self.poisoned = true;
        assert(self@.workers =~= old(self)@.abort(worker as int).workers);
    }

    /// Consumes the handle of a worker that has stopped and reports how it
    /// stopped: `Ok` when it performed all of its increments,
    /// `WorkerPanicked` when it terminated abnormally, `LockPoisoned` when it
    /// met a poisoned lock.
    pub fn join(&mut self, handle: WorkerHandle) -> (r: Result<(), CounterError>)
        requires
            old(self).wf(),
            old(self)@.can_join(handle.worker()),
        ensures
            final(self).wf(),
            final(self)@ == old(self)@.join(handle.worker()),
            r == old(self)@.workers[handle.worker()].outcome(),
    {
        proof {
            lemma_join_inv(self@, handle.worker());
        }
        let record = &self.workers[handle.id];
        let fault = record.fault;
        let joined = WorkerRecord {
            increments: record.increments,
            done: record.done,
            fault: record.fault,
            joined: true,
        };
        self.workers.set(handle.id, joined);
        assert(self@.workers =~= old(self)@.join(handle.worker()).workers);
        match fault {
            None => Ok(()),
            Some(e) => Err(e),
        }
    }

    /// The accumulated total. It may be read once every worker launched
    /// against the counter has been joined, and reading consumes the
    /// counter: nothing changes it afterwards. The total equals the start
    /// value plus the increments that were completed, and, where every join
    /// reported `Ok`, the start value plus all increments that were issued.
    pub fn read(self) -> (total: u128)
        requires
            self.wf(),
            self@.all_joined(),
        ensures
            total == self@.value,
            total == self@.start + self@.completed(),
            self@.all_completed() ==> total == self@.start + self@.planned(),
    {
        proof {
            lemma_completed_within_planned(self@.workers);
        }
        self.value
    }

    /// Whether the lock is poisoned.
    pub fn is_poisoned(&self) -> (p: bool)
        ensures
            p == self@.poisoned,
    {
        self.poisoned
    }

    /// The number of workers launched so far.
    pub fn worker_count(&self) -> (n: usize)
        ensures
            n == self@.workers.len(),
    {
        self.workers.len()
    }

    /// Whether `worker` names a worker that can perform a cycle.
    pub fn can_step(&self, worker: usize) -> (b: bool)
        ensures
            b == self@.can_step(worker as int),
    {
        if worker >= self.workers.len() {
            return false;
        }
        let record = &self.workers[worker];
        record.fault.is_none() && record.done != record.increments
    }

    /// Whether `handle` names a stopped worker of this counter whose handle
    /// has not been consumed.
    pub fn can_join(&self, handle: &WorkerHandle) -> (b: bool)
        ensures
            b == self@.can_join(handle.worker()),
    {
        if handle.id >= self.workers.len() {
            return false;
        }
        let record = &self.workers[handle.id];
        (record.fault.is_some() || record.done == record.increments) && !record.joined
    }

    /// Whether every worker launched so far has been joined.
    pub fn all_joined(&self) -> (b: bool)
        ensures
            b == self@.all_joined(),
    {
        let mut w: usize = 0;
        while w < self.workers.len()
            invariant
                w <= self.workers@.len(),
                forall|x: int| 0 <= x < w ==> (#[trigger] self@.workers[x]).joined,
            decreases self.workers@.len() - w,
        {
            if !self.workers[w].joined {
                assert(!self@.workers[w as int].joined);
                return false;
            }
            w = w + 1;
        }
        true
    }

    /// The value stays far below the limit of its type.
    proof fn lemma_value_bound(&self)
        requires
            self.wf(),
        ensures
            self.value < u128::MAX,
    {
        let workers = self@.workers;
        let bound = i64::MAX as nat;
        assert forall|w: int| 0 <= w < workers.len() implies (#[trigger] workers[w]).increments
            <= bound by {
            assert(workers[w] == self.workers@[w]@);
        }
        lemma_planned_bound(workers, bound);
        lemma_completed_within_planned(workers);
        assert(workers.len() == self.workers.len());
        assert(workers.len() * bound <= 0xffff_ffff_ffff_ffff * 0x7fff_ffff_ffff_ffff)
            by (nonlinear_arith)
            requires
                workers.len() <= 0xffff_ffff_ffff_ffff,
                bound == 0x7fff_ffff_ffff_ffff,
        ;
    }
}

} // verus!
