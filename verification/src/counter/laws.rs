//! What holds of every run of the shared counter, whatever the order in
//! which the lock hands the critical sections out.

use crate::counter::model::lemma_abort_inv;
use crate::counter::model::lemma_completed_within_planned;
use crate::counter::model::lemma_init_inv;
use crate::counter::model::lemma_join_inv;
use crate::counter::model::lemma_planned_uniform;
use crate::counter::model::lemma_spawn_inv;
use crate::counter::model::lemma_step_inv;
use crate::counter::model::lemma_sums_update;
use crate::counter::model::planned_of;
use crate::counter::model::CounterError;
use crate::counter::model::CounterState;
use crate::counter::model::WorkerState;
use vstd::prelude::*;

verus! {

/// One critical section, as the lock serialises them.
pub enum Event {
    /// A worker is launched for the given number of increments.
    Spawn(nat),
    /// The named worker performs one acquire-increment-release cycle.
    Step(int),
    /// The named worker terminates abnormally while it holds the lock.
    Abort(int),
    /// The handle of the named worker is joined.
    Join(int),
}

/// The state after one event. An event that is not enabled in `s` (a cycle
/// of a worker that has stopped, a join of a worker that is still running)
/// does not happen: the state stays as it is.
pub open spec fn apply(s: CounterState, e: Event) -> CounterState {
    match e {
        Event::Spawn(increments) => s.spawn(increments),
        Event::Step(w) => if s.can_step(w) {
            s.step(w)
        } else {
            s
        },
        Event::Abort(w) => if s.can_step(w) {
            s.abort(w)
        } else {
            s
        },
        Event::Join(w) => if s.can_join(w) {
            s.join(w)
        } else {
            s
        },
    }
}

/// The state after a sequence of events, the first of them first.
pub open spec fn run(s: CounterState, events: Seq<Event>) -> CounterState
    decreases events.len(),
{
    if events.len() == 0 {
        s
    } else {
        apply(run(s, events.drop_last()), events.last())
    }
}

/// The numbers of increments that the workers were launched for, in the
/// order in which they were launched.
pub open spec fn plan_of(s: CounterState) -> Seq<nat> {
    Seq::new(s.workers.len(), |w: int| s.workers[w].increments)
}

/// Every event keeps the invariant and the start value.
pub proof fn lemma_apply_inv(s: CounterState, e: Event)
    requires
        s.inv(),
    ensures
        apply(s, e).inv(),
        apply(s, e).start == s.start,
{
    match e {
        Event::Spawn(increments) => lemma_spawn_inv(s, increments),
        Event::Step(w) => if s.can_step(w) {
            lemma_step_inv(s, w);
        },
        Event::Abort(w) => if s.can_step(w) {
            lemma_abort_inv(s, w);
        },
        Event::Join(w) => if s.can_join(w) {
            lemma_join_inv(s, w);
        },
    }
}

/// Every run keeps the invariant and the start value: at each point of each
/// interleaving the value is the start value plus the increments completed.
pub proof fn lemma_run_inv(s: CounterState, events: Seq<Event>)
    requires
        s.inv(),
    ensures
        run(s, events).inv(),
        run(s, events).start == s.start,
        run(s, events).value == s.start + run(s, events).completed(),
    decreases events.len(),
{
    if events.len() > 0 {
        lemma_run_inv(s, events.drop_last());
        lemma_apply_inv(run(s, events.drop_last()), events.last());
    }
}

/// Aggregate correctness. Once every worker has performed all of its
/// increments (every join reports `Ok`), the value is the start value plus
/// the sum of the increments issued, whatever the interleaving was.
pub proof fn lemma_aggregate(start: nat, events: Seq<Event>)
    requires
        run(CounterState::init(start), events).all_completed(),
    ensures
        run(CounterState::init(start), events).value == start + run(
            CounterState::init(start),
            events,
        ).planned(),
{
    let end = run(CounterState::init(start), events);
    lemma_init_inv(start);
    lemma_run_inv(CounterState::init(start), events);
    lemma_completed_within_planned(end.workers);
}

/// No worker terminates abnormally in the course of `events`.
pub open spec fn fault_free(events: Seq<Event>) -> bool {
    forall|i: int| 0 <= i < events.len() ==> !((#[trigger] events[i]) is Abort)
}

/// In a run without abnormal termination the lock is never poisoned and no
/// worker stops early, so a worker that has been joined has performed all
/// of its increments.
pub proof fn lemma_fault_free_run(start: nat, events: Seq<Event>)
    requires
        fault_free(events),
    ensures
        !run(CounterState::init(start), events).poisoned,
        forall|w: int|
            0 <= w < run(CounterState::init(start), events).workers.len() ==> (#[trigger] run(
                CounterState::init(start),
                events,
            ).workers[w]).fault is None,
        run(CounterState::init(start), events).all_joined() ==> run(
            CounterState::init(start),
            events,
        ).all_completed(),
    decreases events.len(),
{
    let end = run(CounterState::init(start), events);
    lemma_init_inv(start);
    lemma_run_inv(CounterState::init(start), events);
    if events.len() > 0 {
        let before = run(CounterState::init(start), events.drop_last());
        assert(fault_free(events.drop_last())) by {
            assert(forall|i: int|
                0 <= i < events.drop_last().len() ==> events.drop_last()[i] == events[i]);
        }
        lemma_fault_free_run(start, events.drop_last());
        assert(!(events.last() is Abort)) by {
            assert(events.last() == events[events.len() - 1]);
        }
        assert forall|w: int| 0 <= w < end.workers.len() implies (#[trigger] end.workers[w]).fault
            is None by {
            if w < before.workers.len() {
                assert(before.workers[w].fault is None);
            }
        }
    }
    if end.all_joined() {
        assert forall|w: int| 0 <= w < end.workers.len() implies (#[trigger] end.workers[w])
            .completed() by {
            assert(end.workers[w].joined);
            assert(end.workers[w].fault is None);
        }
    }
}

/// Aggregate correctness after the joins. In a run without abnormal
/// termination, once every worker has been joined the value is the start
/// value plus the sum of the increments issued.
pub proof fn lemma_aggregate_after_joins(start: nat, events: Seq<Event>)
    requires
        fault_free(events),
        run(CounterState::init(start), events).all_joined(),
    ensures
        run(CounterState::init(start), events).value == start + run(
            CounterState::init(start),
            events,
        ).planned(),
{
    lemma_fault_free_run(start, events);
    lemma_aggregate(start, events);
}

/// Aggregate correctness for a uniform fan-out: `n` workers of `k`
/// increments each leave the value at `start + n * k`.
pub proof fn lemma_aggregate_uniform(start: nat, events: Seq<Event>, n: nat, k: nat)
    requires
        run(CounterState::init(start), events).all_completed(),
        run(CounterState::init(start), events).workers.len() == n,
        forall|w: int| 0 <= w < n ==> (#[trigger] run(CounterState::init(start), events).workers[w]).increments == k,
    ensures
        run(CounterState::init(start), events).value == start + n * k,
{
    let end = run(CounterState::init(start), events);
    lemma_aggregate(start, events);
    lemma_planned_uniform(end.workers, k);
}

/// The plan alone fixes the sum of the increments issued.
pub proof fn lemma_planned_of_plan(a: CounterState, b: CounterState)
    requires
        plan_of(a) == plan_of(b),
    ensures
        a.planned() == b.planned(),
{
    assert(a.workers.len() == plan_of(a).len());
    assert(b.workers.len() == plan_of(b).len());
    assert forall|w: int| 0 <= w < a.workers.len() implies (#[trigger] a.workers[w]).increments
        == b.workers[w].increments by {
        assert(plan_of(a)[w] == a.workers[w].increments);
        assert(plan_of(b)[w] == b.workers[w].increments);
    }
    lemma_planned_by_plan(a.workers, b.workers);
}

proof fn lemma_planned_by_plan(a: Seq<WorkerState>, b: Seq<WorkerState>)
    requires
        a.len() == b.len(),
        forall|w: int| 0 <= w < a.len() ==> (#[trigger] a[w]).increments == b[w].increments,
    ensures
        planned_of(a) == planned_of(b),
    decreases a.len(),
{
    if a.len() > 0 {
        assert(forall|w: int| 0 <= w < a.len() - 1 ==> a.drop_last()[w] == a[w]);
        assert(forall|w: int| 0 <= w < b.len() - 1 ==> b.drop_last()[w] == b[w]);
        assert(a.last().increments == b.last().increments);
        lemma_planned_by_plan(a.drop_last(), b.drop_last());
    }
}

/// Determinism of the aggregate. Two runs of one configuration (the same
/// start value, the same workers with the same numbers of increments) in
/// which every worker performed all of its increments end with the same
/// value, however differently the two were interleaved.
pub proof fn lemma_deterministic(start: nat, first: Seq<Event>, second: Seq<Event>)
    requires
        run(CounterState::init(start), first).all_completed(),
        run(CounterState::init(start), second).all_completed(),
        plan_of(run(CounterState::init(start), first)) == plan_of(
            run(CounterState::init(start), second),
        ),
    ensures
        run(CounterState::init(start), first).value == run(
            CounterState::init(start),
            second,
        ).value,
{
    let a = run(CounterState::init(start), first);
    let b = run(CounterState::init(start), second);
    lemma_aggregate(start, first);
    lemma_aggregate(start, second);
    lemma_planned_of_plan(a, b);
}

/// With no worker launched the counter stays at its start value, and may
/// be read at once.
pub proof fn lemma_no_workers(start: nat, events: Seq<Event>)
    requires
        run(CounterState::init(start), events).workers.len() == 0,
    ensures
        run(CounterState::init(start), events).value == start,
        run(CounterState::init(start), events).all_joined(),
{
    let end = run(CounterState::init(start), events);
    assert(end.all_completed());
    lemma_aggregate(start, events);
}

/// A worker that terminates abnormally inside the critical section is
/// reported as `WorkerPanicked` by its join, and the next cycle of any other
/// worker reports `LockPoisoned`, stops that worker with the same error for
/// its join, and leaves the value as it was.
pub proof fn lemma_panic_poisons(s: CounterState, w: int, other: int)
    requires
        s.inv(),
        s.can_step(w),
        s.can_step(other),
        other != w,
    ensures
        s.abort(w).value == s.value,
        s.abort(w).workers[w].outcome() == Err::<(), CounterError>(CounterError::WorkerPanicked),
        s.abort(w).can_join(w),
        s.abort(w).can_step(other),
        s.abort(w).step_result() == Err::<(), CounterError>(CounterError::LockPoisoned),
        s.abort(w).step(other).value == s.value,
        s.abort(w).step(other).workers[other].outcome() == Err::<(), CounterError>(
            CounterError::LockPoisoned,
        ),
        s.abort(w).step(other).can_join(other),
{
}

/// The value never goes down.
pub proof fn lemma_value_grows(s: CounterState, events: Seq<Event>)
    ensures
        run(s, events).value >= s.value,
    decreases events.len(),
{
    if events.len() > 0 {
        lemma_value_grows(s, events.drop_last());
    }
}

/// No two cycles observe the same value. A cycle that finds the value `v`
/// leaves `v + 1`, and whatever happens next, the value stays above `v`: a
/// later cycle, of any worker, finds another value.
pub proof fn lemma_increments_are_serial(s: CounterState, w: int, later: Seq<Event>)
    requires
        s.can_step(w),
        !s.poisoned,
    ensures
        s.step(w).value == s.value + 1,
        run(s.step(w), later).value > s.value,
{
    lemma_value_grows(s.step(w), later);
}

/// A poisoned lock stays poisoned, and the value never changes again.
pub proof fn lemma_poison_persists(s: CounterState, events: Seq<Event>)
    requires
        s.poisoned,
    ensures
        run(s, events).poisoned,
        run(s, events).value == s.value,
    decreases events.len(),
{
    if events.len() > 0 {
        lemma_poison_persists(s, events.drop_last());
    }
}

/// No increment is lost in silence. Where every worker has stopped and the
/// value falls short of the start value plus the increments issued, the
/// join of some worker reports an error.
pub proof fn lemma_shortfall_is_signalled(s: CounterState)
    requires
        s.inv(),
        forall|w: int| 0 <= w < s.workers.len() ==> (#[trigger] s.workers[w]).terminated(),
        s.value != s.start + s.planned(),
    ensures
        exists|w: int| 0 <= w < s.workers.len() && (#[trigger] s.workers[w]).outcome() is Err,
{
    lemma_completed_within_planned(s.workers);
    let w = choose|w: int| 0 <= w < s.workers.len() && (#[trigger] s.workers[w]).done != s.workers[w].increments;
    assert(s.workers[w].terminated());
    assert(s.workers[w].outcome() is Err);
}

/// `LockPoisoned` has a cause: a worker stops with it only where some worker
/// terminated abnormally while holding the lock.
pub proof fn lemma_poison_has_cause(s: CounterState, w: int)
    requires
        s.inv(),
        s.is_worker(w),
        s.workers[w].outcome() == Err::<(), CounterError>(CounterError::LockPoisoned),
    ensures
        exists|p: int|
            0 <= p < s.workers.len() && (#[trigger] s.workers[p]).outcome() == Err::<
                (),
                CounterError,
            >(CounterError::WorkerPanicked),
{
    assert(s.poisoned);
    let p = choose|p: int|
        0 <= p < s.workers.len() && (#[trigger] s.workers[p]).fault == Some(
            CounterError::WorkerPanicked,
        );
    assert(s.workers[p].outcome() == Err::<(), CounterError>(CounterError::WorkerPanicked));
}

/// A run in two parts is the run of the second part from where the first
/// part ends.
pub proof fn lemma_run_concat(s: CounterState, first: Seq<Event>, second: Seq<Event>)
    ensures
        run(s, first + second) == run(run(s, first), second),
    decreases second.len(),
{
    if second.len() == 0 {
        assert(first + second =~= first);
    } else {
        lemma_run_concat(s, first, second.drop_last());
        assert((first + second).drop_last() =~= first + second.drop_last());
        assert((first + second).last() == second.last());
    }
}

/// The run of one event is that event.
pub proof fn lemma_run_one(s: CounterState, e: Event)
    ensures
        run(s, seq![e]) == apply(s, e),
{
    reveal_with_fuel(run, 2);
    assert(seq![e].drop_last() =~= Seq::<Event>::empty());
}

/// The lock is sound and no worker has stopped early.
pub open spec fn fault_free_state(s: CounterState) -> bool {
    &&& !s.poisoned
    &&& forall|w: int| 0 <= w < s.workers.len() ==> (#[trigger] s.workers[w]).fault is None
}

/// The workers of `s` that have been joined.
pub open spec fn joined_of(s: CounterState) -> Seq<bool> {
    Seq::new(s.workers.len(), |w: int| s.workers[w].joined)
}

/// Launching the workers of `plan` one after the other leads from a fresh
/// counter to a counter with just these workers, none of which has begun.
pub proof fn lemma_spawn_all(start: nat, plan: Seq<nat>) -> (events: Seq<Event>)
    ensures
        run(CounterState::init(start), events).inv(),
        fault_free_state(run(CounterState::init(start), events)),
        plan_of(run(CounterState::init(start), events)) == plan,
        run(CounterState::init(start), events).start == start,
        forall|w: int|
            0 <= w < plan.len() ==> !(#[trigger] run(
                CounterState::init(start),
                events,
            ).workers[w]).joined,
    decreases plan.len(),
{
    let fresh = CounterState::init(start);
    lemma_init_inv(start);
    if plan.len() == 0 {
        let events = Seq::<Event>::empty();
        assert(plan_of(run(fresh, events)) =~= plan);
        events
    } else {
        let before = lemma_spawn_all(start, plan.drop_last());
        let events = before.push(Event::Spawn(plan.last()));
        assert(events.drop_last() =~= before);
        let s = run(fresh, before);
        let t = run(fresh, events);
        assert(t == s.spawn(plan.last()));
        lemma_spawn_inv(s, plan.last());
        assert(s.workers.len() == plan_of(s).len());
        assert forall|w: int| 0 <= w < t.workers.len() implies (#[trigger] t.workers[w]).fault
            is None && !t.workers[w].joined by {
            if w < s.workers.len() {
                assert(t.workers[w] == s.workers[w]);
            }
        }
        assert forall|w: int| 0 <= w < plan.len() implies plan_of(t)[w] == plan[w] by {
            if w < s.workers.len() {
                assert(t.workers[w] == s.workers[w]);
                assert(plan_of(s)[w] == plan.drop_last()[w]);
            }
        }
        assert(plan_of(t) =~= plan);
        events
    }
}

/// From a state without faults the workers can perform all of their
/// increments: some sequence of cycles leaves every worker completed, and
/// changes neither the plan nor what has been joined.
pub proof fn lemma_can_complete(s: CounterState) -> (events: Seq<Event>)
    requires
        s.inv(),
        fault_free_state(s),
    ensures
        run(s, events).inv(),
        run(s, events).all_completed(),
        run(s, events).start == s.start,
        plan_of(run(s, events)) == plan_of(s),
        joined_of(run(s, events)) == joined_of(s),
    decreases s.planned() - s.completed(),
{
    lemma_completed_within_planned(s.workers);
    if exists|w: int| s.can_step(w) {
        let w = choose|w: int| s.can_step(w);
        let t = s.step(w);
        lemma_step_inv(s, w);
        lemma_sums_update(s.workers, w, t.workers[w]);
        assert forall|x: int| 0 <= x < t.workers.len() implies (#[trigger] t.workers[x]).fault
            is None by {
            if x != w {
                assert(t.workers[x] == s.workers[x]);
            }
        }
        let rest = lemma_can_complete(t);
        let events = seq![Event::Step(w)] + rest;
        lemma_run_concat(s, seq![Event::Step(w)], rest);
        lemma_run_one(s, Event::Step(w));
        assert(plan_of(t) =~= plan_of(s));
        assert(joined_of(t) =~= joined_of(s));
        events
    } else {
        let events = Seq::<Event>::empty();
        assert forall|w: int| 0 <= w < s.workers.len() implies (#[trigger] s.workers[w])
            .completed() by {
            assert(!s.can_step(w));
        }
        events
    }
}

/// Once every worker is completed, the handles can be joined one after the
/// other, from worker `from` on; the joins change nothing else.
pub proof fn lemma_can_join_from(s: CounterState, from: int) -> (events: Seq<Event>)
    requires
        s.inv(),
        s.all_completed(),
        0 <= from <= s.workers.len(),
        forall|w: int| 0 <= w < from ==> (#[trigger] s.workers[w]).joined,
    ensures
        run(s, events).inv(),
        run(s, events).all_completed(),
        run(s, events).all_joined(),
        run(s, events).start == s.start,
        run(s, events).value == s.value,
        plan_of(run(s, events)) == plan_of(s),
    decreases s.workers.len() - from,
{
    if from == s.workers.len() {
        Seq::<Event>::empty()
    } else {
        let e = Event::Join(from);
        let t = apply(s, e);
        lemma_apply_inv(s, e);
        assert(s.workers[from].completed());
        assert forall|w: int| 0 <= w < t.workers.len() implies (#[trigger] t.workers[w])
            .completed() && (w <= from ==> t.workers[w].joined) by {
            if w != from {
                assert(t.workers[w] == s.workers[w]);
            }
        }
        assert(plan_of(t) =~= plan_of(s));
        let rest = lemma_can_join_from(t, from + 1);
        lemma_run_concat(s, seq![e], rest);
        lemma_run_one(s, e);
        seq![e] + rest
    }
}

/// Every configuration has a complete run. For each start value and each
/// plan of workers there is a sequence of critical sections from the fresh
/// counter after which the workers are those of the plan, each has
/// performed all of its increments and has been joined, and the value is
/// the start value plus the sum of the increments issued.
pub proof fn lemma_every_plan_completes(start: nat, plan: Seq<nat>) -> (events: Seq<Event>)
    ensures
        plan_of(run(CounterState::init(start), events)) == plan,
        run(CounterState::init(start), events).all_completed(),
        run(CounterState::init(start), events).all_joined(),
        run(CounterState::init(start), events).value == start + run(
            CounterState::init(start),
            events,
        ).planned(),
{
    let fresh = CounterState::init(start);
    let spawns = lemma_spawn_all(start, plan);
    let launched = run(fresh, spawns);
    let cycles = lemma_can_complete(launched);
    let completed = run(launched, cycles);
    let joins = lemma_can_join_from(completed, 0);
    let events = spawns + cycles + joins;
    lemma_run_concat(fresh, spawns, cycles);
    lemma_run_concat(fresh, spawns + cycles, joins);
    lemma_aggregate(start, events);
    events
}

} // verus!
