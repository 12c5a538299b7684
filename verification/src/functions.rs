//! Functions as expressions.

use vstd::prelude::*;

verus! {

/// Five.
pub fn five() -> (n: i32)
    ensures
        n == 5,
{
    5
}

} // verus!
