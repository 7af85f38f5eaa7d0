//! Coins, and the states that some quarters show.

use vstd::prelude::*;
use vstd::string::*;

verus! {

/// A state of the union that a quarter may show.
#[derive(Clone, Copy, Debug, PartialEq, Eq, Structural)]
pub enum UsState {
    Alabama,
    Alaska,
}

/// A coin.
#[derive(Clone, Copy, Debug, PartialEq, Eq, Structural)]
pub enum Coin {
    Quarter(UsState),
}

impl UsState {
    /// The name of the state.
    pub open spec fn name(&self) -> Seq<char> {
        match self {
            UsState::Alabama => "Alabama"@,
            UsState::Alaska => "Alaska"@,
        }
    }

    /// Whether the state existed in `year`: Alaska counts from 1819,
    /// Alabama from 1959.
    pub fn existed_in(&self, year: u16) -> (b: bool)
        ensures
            b == (match self {
                UsState::Alaska => year >= 1819,
                UsState::Alabama => year >= 1959,
            }),
    {
        match self {
            UsState::Alaska => year >= 1819,
            UsState::Alabama => year >= 1959,
        }
    }
}

/// The name of the state that a quarter shows.
pub fn describe_state_quarter(coin: Coin) -> (description: Option<String>)
    ensures
        description is Some,
        match coin {
            Coin::Quarter(state) => description->0@ == state.name(),
        },
{
    match coin {
        Coin::Quarter(state) => Some(
            match state {
                UsState::Alabama => String::from_str("Alabama"),
                UsState::Alaska => String::from_str("Alaska"),
            },
        ),
    }
}

} // verus!
