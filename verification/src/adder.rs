//! Sums, rectangles, greetings and guesses.

use vstd::prelude::*;
use vstd::string::StringExecFns;

verus! {

/// The sum of `left` and `right`, where it fits.
pub fn add(left: u64, right: u64) -> (sum: u64)
    requires
        left + right <= u64::MAX,
    ensures
        sum == left + right,
{
    left + right
}

/// A rectangle.
#[derive(Debug)]
pub struct Rectangle {
    pub width: u32,
    pub height: u32,
}

impl Rectangle {
    /// Whether `other` fits inside `self` with room to spare on each side.
    pub fn can_hold(&self, other: &Rectangle) -> (holds: bool)
        ensures
            holds == (self.width > other.width && self.height > other.height),
    {
        self.width > other.width && self.height > other.height
    }
}

/// The greeting for `name`.
pub fn greeting(name: &str) -> (text: String)
    ensures
        text@ == "Hello "@ + name@ + "!"@,
{
    let mut text = String::from_str("Hello ");
    text.append(name);
    text.append("!");
    text
}

/// A guess between 1 and 100.
pub struct Guess {
    value: i32,
}

impl Guess {
    /// The number that was guessed.
    pub closed spec fn number(&self) -> int {
        self.value as int
    }

    #[verifier::type_invariant]
    spec fn in_range(&self) -> bool {
        1 <= self.value <= 100
    }

    /// The guess of `value`, which lies between 1 and 100.
    pub fn new(value: i32) -> (guess: Guess)
        requires
            1 <= value <= 100,
        ensures
            guess.number() == value,
    {
        Guess { value }
    }
}

} // verus!
