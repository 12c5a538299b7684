//! Coins, what they are worth, and what a state quarter says of its state.

use crate::text::text_of;
use vstd::prelude::*;
use vstd::string::StringExecFns;

verus! {

/// A state of the United States that has its own quarter.
#[derive(Debug, Clone, Copy, PartialEq, Eq, Structural)]
pub enum UsState {
    Alabama,
    Alaska,
}

/// A coin.
#[derive(Debug, Clone, Copy, PartialEq, Eq, Structural)]
pub enum Coin {
    Penny,
    Nickel,
    Dime,
    Quarter(UsState),
}

/// The year in which `state` joined the union.
pub open spec fn statehood_year(state: UsState) -> int {
    match state {
        UsState::Alabama => 1819,
        UsState::Alaska => 1959,
    }
}

/// The name of `state`.
pub open spec fn state_name(state: UsState) -> Seq<char> {
    match state {
        UsState::Alabama => "Alabama"@,
        UsState::Alaska => "Alaska"@,
    }
}

/// What `coin` is worth, in cents.
pub open spec fn cents_of(coin: Coin) -> int {
    match coin {
        Coin::Penny => 1,
        Coin::Nickel => 5,
        Coin::Dime => 10,
        Coin::Quarter(_) => 25,
    }
}

/// What a quarter of `state` says of it: old where the state existed in
/// 1900, new where it did not.
pub open spec fn state_description(state: UsState) -> Seq<char> {
    if 1900 >= statehood_year(state) {
        state_name(state) + " is pretty old, for America!"@
    } else {
        state_name(state) + " is relatively new."@
    }
}

/// What `coin` says of its state, if it is a state quarter.
pub open spec fn quarter_description(coin: Coin) -> Option<Seq<char>> {
    match coin {
        Coin::Quarter(state) => Some(state_description(state)),
        _ => None,
    }
}

impl UsState {
    /// Whether the state had joined the union by `year`.
    pub fn existed_in(&self, year: u16) -> (existed: bool)
        ensures
            existed == (year >= statehood_year(*self)),
    {
        match self {
            UsState::Alabama => year >= 1819,
            UsState::Alaska => year >= 1959,
        }
    }

    /// The name of the state.
    pub fn name(&self) -> (name: &'static str)
        ensures
            name@ == state_name(*self),
    {
        match self {
            UsState::Alabama => "Alabama",
            UsState::Alaska => "Alaska",
        }
    }

    /// The name of the state, followed by `remark`.
    fn remark(&self, remark: &str) -> (text: String)
        ensures
            text@ == state_name(*self) + remark@,
    {
        let mut text = String::from_str(self.name());
        text.append(remark);
        text
    }
}

/// What `coin` says of its state: nothing unless it is a state quarter.
pub fn describe_state_quarter(coin: Coin) -> (text: Option<String>)
    ensures
        text_of(text) == quarter_description(coin),
{
    if let Coin::Quarter(state) = coin {
        if state.existed_in(1900) {
            Some(state.remark(" is pretty old, for America!"))
        } else {
            Some(state.remark(" is relatively new."))
        }
    } else {
        None
    }
}

/// As [`describe_state_quarter`], with the state taken out of the coin
/// before anything is said of it.
pub fn describe_state_quarter_two(coin: Coin) -> (text: Option<String>)
    ensures
        text_of(text) == quarter_description(coin),
{
    let state = if let Coin::Quarter(state) = coin {
        state
    } else {
        return None;
    };

    if state.existed_in(1900) {
        Some(state.remark(" is pretty old, for America!"))
    } else {
        Some(state.remark(" is relatively new."))
    }
}

/// As [`describe_state_quarter`], leaving early for a coin that is no
/// state quarter.
pub fn describe_state_quarter_three(coin: Coin) -> (text: Option<String>)
    ensures
        text_of(text) == quarter_description(coin),
{
    let Coin::Quarter(state) = coin else {
        return None;
    };

    if state.existed_in(1900) {
        Some(state.remark(" is pretty old, for America!"))
    } else {
        Some(state.remark(" is relatively new."))
    }
}

/// What `coin` is worth, in cents.
pub fn value_in_cents(coin: Coin) -> (cents: u8)
    ensures
        cents == cents_of(coin),
{
    match coin {
        Coin::Penny => 1,
        Coin::Nickel => 5,
        Coin::Dime => 10,
        Coin::Quarter(_) => 25,
    }
}

/// What `coin` is worth, in cents, with the state of a quarter taken out
/// of the coin.
pub fn value_in_cents_two(coin: Coin) -> (cents: u8)
    ensures
        cents == cents_of(coin),
{
    match coin {
        Coin::Penny => 1,
        Coin::Nickel => 5,
        Coin::Dime => 10,
        Coin::Quarter(_state) => 25,
    }
}

} // verus!
