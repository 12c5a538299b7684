//! Receiving the guests.

use vstd::prelude::*;

verus! {

/// A guest is put on the waiting list. Nothing else changes.
pub fn add_to_waitlist() {
}

/// A guest is seated. Nothing else changes.
pub fn seat_at_table() {
}

} // verus!
