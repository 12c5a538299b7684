use fundamentals::counter::model::CounterError;
use fundamentals::counter::SharedCounter;
use fundamentals::counter::WorkerHandle;
use std::sync::Arc;
use std::sync::Mutex;

#[test]
fn single_threaded_mutex() {
    let m = Mutex::new(5);

    {
        let mut num = m.lock().unwrap();

        *num = 6;
    }

    println!("m = {m:?}");
}

/// Launches `workers` workers of `increments` increments each and lets
/// them take the lock in the order that `next` picks among those that
/// still have work, then joins them, the last one first where `reverse`.
fn run_workers(
    start: i64,
    workers: usize,
    increments: i64,
    mut next: impl FnMut(usize) -> usize,
    reverse: bool,
) -> u128 {
    let counter = Arc::new(Mutex::new(SharedCounter::initialize(start).unwrap()));
    let mut handles: Vec<WorkerHandle> = vec![];

    for _ in 0..workers {
        let counter = Arc::clone(&counter);
        let handle = counter.lock().unwrap().spawn_worker(increments).unwrap();
        handles.push(handle);
    }

    loop {
        let ready: Vec<usize> = {
            let guard = counter.lock().unwrap();
            handles.iter().map(|h| h.id()).filter(|id| guard.can_step(*id)).collect()
        };
        if ready.is_empty() {
            break;
        }
        let id = ready[next(ready.len()) % ready.len()];
        let counter = Arc::clone(&counter);
        let mut num = counter.lock().unwrap();
        assert_eq!(num.acquire_and_increment(id), Ok(()));
    }

    if reverse {
        handles.reverse();
    }
    let launched = handles.len();
    for (joined, handle) in handles.into_iter().enumerate() {
        let mut guard = counter.lock().unwrap();
        assert!(!guard.all_joined());
        assert!(guard.can_join(&handle));
        assert_eq!(guard.join(handle), Ok(()));
        assert_eq!(guard.all_joined(), joined + 1 == launched);
    }

    assert!(counter.lock().unwrap().all_joined());
    let counter = Arc::try_unwrap(counter).unwrap().into_inner().unwrap();
    assert_eq!(counter.worker_count(), workers);
    counter.read()
}

/// A handle of another counter, for a worker that comes after `workers`
/// others.
fn handle_of_another_counter(workers: usize) -> WorkerHandle {
    let mut other = SharedCounter::initialize(0).unwrap();
    let mut handle = other.spawn_worker(0).unwrap();
    while handle.id() < workers {
        handle = other.spawn_worker(0).unwrap();
    }
    handle
}

#[test]
fn shared_state_mutex() {
    let result = run_workers(0, 10, 1, |_| 0, false);
    println!("Result: {}", result);
    assert_eq!(result, 10);
}

#[test]
fn four_workers_of_twenty_five_reach_one_hundred_every_time() {
    assert_eq!(run_workers(0, 4, 25, |_| 0, false), 100);
    assert_eq!(run_workers(0, 4, 25, |ready| ready - 1, true), 100);
    let mut turn = 0;
    let round_robin = move |_| {
        turn += 1;
        turn
    };
    assert_eq!(run_workers(0, 4, 25, round_robin, false), 100);
    for seed in 0..20u64 {
        let mut state = seed;
        let scrambled = move |_| {
            state = state.wrapping_mul(6364136223846793005).wrapping_add(1442695040888963407);
            (state >> 33) as usize
        };
        assert_eq!(run_workers(0, 4, 25, scrambled, seed % 2 == 0), 100);
    }
}

#[test]
fn the_total_is_the_start_plus_all_increments() {
    assert_eq!(run_workers(5, 3, 4, |_| 0, false), 17);
    assert_eq!(run_workers(1, 1, 0, |_| 0, false), 1);
    assert_eq!(run_workers(0, 7, 0, |_| 0, true), 0);
    assert_eq!(run_workers(i64::MAX, 2, 1, |_| 1, false), i64::MAX as u128 + 2);
}

#[test]
fn no_workers_leave_the_start_value() {
    assert_eq!(run_workers(0, 0, 5, |_| 0, false), 0);
    assert_eq!(run_workers(42, 0, 0, |_| 0, false), 42);
    let counter = SharedCounter::initialize(7).unwrap();
    assert!(counter.all_joined());
    assert_eq!(counter.worker_count(), 0);
    assert!(!counter.is_poisoned());
    assert_eq!(counter.read(), 7);
}

#[test]
fn workers_of_different_lengths_add_up() {
    let mut counter = SharedCounter::initialize(100).unwrap();
    let a = counter.spawn_worker(3).unwrap();
    let b = counter.spawn_worker(0).unwrap();
    let c = counter.spawn_worker(1).unwrap();
    assert_eq!(counter.worker_count(), 3);
    assert_eq!((a.id(), b.id(), c.id()), (0, 1, 2));
    assert!(counter.can_step(0));
    assert!(!counter.can_step(1));
    assert!(counter.can_join(&b));
    assert!(!counter.can_join(&a));
    assert_eq!(counter.acquire_and_increment(2), Ok(()));
    assert!(!counter.can_step(2));
    assert_eq!(counter.acquire_and_increment(0), Ok(()));
    assert_eq!(counter.join(c), Ok(()));
    assert_eq!(counter.acquire_and_increment(0), Ok(()));
    assert_eq!(counter.acquire_and_increment(0), Ok(()));
    assert!(!counter.can_step(0));
    assert_eq!(counter.join(b), Ok(()));
    assert!(!counter.all_joined());
    assert_eq!(counter.join(a), Ok(()));
    assert!(counter.all_joined());
    assert_eq!(counter.read(), 104);
}

#[test]
fn negative_arguments_are_rejected() {
    assert!(matches!(SharedCounter::initialize(-1), Err(CounterError::InvalidArgument)));
    assert!(matches!(SharedCounter::initialize(i64::MIN), Err(CounterError::InvalidArgument)));
    assert!(SharedCounter::initialize(0).is_ok());

    let mut counter = SharedCounter::initialize(0).unwrap();
    assert!(matches!(counter.spawn_worker(-1), Err(CounterError::InvalidArgument)));
    assert!(matches!(counter.spawn_worker(i64::MIN), Err(CounterError::InvalidArgument)));
    assert_eq!(counter.worker_count(), 0);
    assert!(counter.all_joined());
    assert!(counter.spawn_worker(0).is_ok());
    assert_eq!(counter.worker_count(), 1);
    assert!(!counter.all_joined());
}

#[test]
fn reading_is_open_only_after_every_join() {
    let mut counter = SharedCounter::initialize(0).unwrap();
    assert!(counter.all_joined());
    let first = counter.spawn_worker(1).unwrap();
    let second = counter.spawn_worker(1).unwrap();
    assert!(!counter.all_joined());
    assert_eq!(counter.acquire_and_increment(first.id()), Ok(()));
    assert_eq!(counter.acquire_and_increment(second.id()), Ok(()));
    assert!(!counter.all_joined());
    assert!(!counter.can_join(&handle_of_another_counter(counter.worker_count())));
    assert_eq!(counter.join(second), Ok(()));
    assert!(!counter.all_joined());
    assert_eq!(counter.join(first), Ok(()));
    assert!(counter.all_joined());
    assert_eq!(counter.read(), 2);
}

#[test]
fn a_worker_that_panics_poisons_the_lock() {
    let mut counter = SharedCounter::initialize(3).unwrap();
    let faulty = counter.spawn_worker(2).unwrap();
    let other = counter.spawn_worker(2).unwrap();
    assert_eq!(counter.acquire_and_increment(faulty.id()), Ok(()));
    assert_eq!(counter.acquire_and_increment(other.id()), Ok(()));
    assert!(!counter.is_poisoned());

    counter.panic_in_section(faulty.id());
    assert!(counter.is_poisoned());
    assert!(!counter.can_step(faulty.id()));
    assert!(counter.can_join(&faulty));
    assert_eq!(counter.join(faulty), Err(CounterError::WorkerPanicked));

    assert!(counter.can_step(other.id()));
    assert_eq!(counter.acquire_and_increment(other.id()), Err(CounterError::LockPoisoned));
    assert!(!counter.can_step(other.id()));
    assert_eq!(counter.join(other), Err(CounterError::LockPoisoned));

    let late = counter.spawn_worker(1).unwrap();
    assert_eq!(counter.acquire_and_increment(late.id()), Err(CounterError::LockPoisoned));
    assert_eq!(counter.join(late), Err(CounterError::LockPoisoned));

    assert!(counter.all_joined());
    assert_eq!(counter.read(), 5);
}
