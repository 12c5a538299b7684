//! The guest's side of a visit.

use vstd::prelude::*;

verus! {

/// A visit that involves nothing of the house.
pub fn eat_at_restaurant() {
}

} // verus!
