//! Scheduling core of a single-threaded cooperative task executor, with the
//! small utilities that the command-line programs built on it share.

use vstd::prelude::*;

pub mod channel;
pub mod coins;
pub mod combinators;
pub mod executor;
pub mod functions;
pub mod guessing_game;
pub mod inventory;
pub mod minigrep;
pub mod naming;
pub mod outline;
pub mod ownership;
pub mod points;
pub mod restaurant;
pub mod shapes;
pub mod shoes;
pub mod summary;
pub mod task;
pub mod text;
pub mod timer_queue;
pub mod users;
pub mod writer;

verus! {

/// Sum of two unsigned numbers.
pub fn add(left: u64, right: u64) -> (sum: u64)
    requires
        left + right <= u64::MAX,
    ensures
        sum == left + right,
{
    left + right
}

/// The number two above `i`.
pub fn add_two(i: i32) -> (sum: i32)
    requires
        i + 2 <= i32::MAX,
    ensures
        sum == i + 2,
{
    i + 2
}

/// A guess in a game whose only guess that counts is 100.
pub struct Guess {
    value: i32,
}

impl Guess {
    /// The number that was guessed.
    pub closed spec fn view(&self) -> int {
        self.value as int
    }

    /// Makes a guess. Every number above and every number below 100 is out
    /// of bounds.
    pub fn new(value: i32) -> (guess: Guess)
        requires
            value == 100,
        ensures
            guess@ == value,
    {
        Guess { value }
    }
}

/// A rectangle by width and height.
#[derive(Debug)]
pub struct Rectangle {
    pub width: u32,
    pub height: u32,
}

impl Rectangle {
    /// Whether `other` can be held: this rectangle is both wider and higher
    /// than `other` is high.
    pub fn can_hold(&self, other: &Rectangle) -> (b: bool)
        ensures
            b == (self.width > other.height && self.height > other.height),
    {
        self.width > other.height && self.height > other.height
    }
}

} // verus!
