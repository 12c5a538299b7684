//! A piece of work raced against a time limit.

use std::time::Duration;
use vstd::prelude::*;

verus! {

/// How a race between a piece of work and a time limit ended.
pub enum Raced<T> {
    /// The work finished first, with this output.
    Finished(T),
    /// The time limit was reached first.
    TimedOut,
}

/// The result of work that was given `max_time` to finish: its output
/// where it finished in time, and the time it was given where it did not.
pub fn timeout<T>(raced: Raced<T>, max_time: Duration) -> (r: Result<T, Duration>)
    ensures
        r == match raced {
            Raced::Finished(output) => Ok::<T, Duration>(output),
            Raced::TimedOut => Err::<T, Duration>(max_time),
        },
{
    match raced {
        Raced::Finished(output) => Ok(output),
        Raced::TimedOut => Err(max_time),
    }
}

} // verus!
