//! A number that is known to be a valid guess.

use vstd::prelude::*;

verus! {

/// A guess between 1 and 100.
pub struct Guess {
    value: i32,
}

impl Guess {
    /// The number that was guessed.
    pub closed spec fn number(&self) -> int {
        self.value as int
    }

    #[verifier::type_invariant]
    spec fn in_range(&self) -> bool {
        1 <= self.value <= 100
    }

    /// Whether `value` can be guessed: it lies between 1 and 100.
    pub open spec fn valid(value: int) -> bool {
        1 <= value <= 100
    }

    /// Whether `value` can be guessed: it lies between 1 and 100.
    pub fn is_valid(value: i32) -> (valid: bool)
        ensures
            valid == Self::valid(value as int),
    {
        1 <= value && value <= 100
    }

    /// The guess of `value`, which lies between 1 and 100.
    pub fn new(value: i32) -> (guess: Guess)
        requires
            Self::valid(value as int),
        ensures
            guess.number() == value,
    {
        Guess { value }
    }

    /// The number that was guessed. It lies between 1 and 100.
    pub fn value(&self) -> (value: i32)
        ensures
            value == self.number(),
            Self::valid(value as int),
    {
        proof {
            use_type_invariant(self);
        }
        self.value
    }
}

} // verus!
