//! Serving the guests.

use vstd::prelude::*;

verus! {

/// An order is taken. Nothing changes.
pub fn take_order() {
}

/// An order is served. Nothing changes.
pub fn serve_order() {
}

/// A payment is taken. Nothing changes.
pub fn take_payment() {
}

} // verus!
