//! The moves of a board game that is played with a die.

use vstd::prelude::*;

verus! {

/// One more than `x`, where there is an `x`.
pub fn plus_one(x: Option<i32>) -> (next: Option<i32>)
    requires
        x != Some(i32::MAX),
    ensures
        next == match x {
            None => None::<i32>,
            Some(i) => Some((i + 1) as i32),
        },
{
    match x {
        None => None,
        Some(i) => Some(i + 1),
    }
}

/// The player gets a fancy hat. Nothing else changes.
pub fn add_fancy_hat() {
}

/// The player loses the fancy hat. Nothing else changes.
pub fn remove_fancy_hat() {
}

/// The player moves by `num_spaces`. Nothing else changes.
pub fn move_player(num_spaces: u8) {
}

/// The player rolls again. Nothing else changes.
pub fn reroll() {
}

} // verus!
