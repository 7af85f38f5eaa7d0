//! A shirt company's stock, and the shirt that a customer is given.

use vstd::prelude::*;

verus! {

/// The colours in which the shirt is made.
#[derive(Clone, Copy, Debug, PartialEq, Eq, Structural)]
pub enum ShirtColor {
    Red,
    Blue,
}

/// The shirts in stock.
pub struct Inventory {
    pub shirts: Vec<ShirtColor>,
}

/// How many shirts of `shirts` have the colour `color`.
pub open spec fn count_of(shirts: Seq<ShirtColor>, color: ShirtColor) -> nat
    decreases shirts.len(),
{
    if shirts.len() == 0 {
        0
    } else {
        count_of(shirts.drop_last(), color) + if shirts.last() == color {
            1nat
        } else {
            0nat
        }
    }
}

/// The colour of which `shirts` holds most: red if there are more red shirts
/// than blue ones, else blue.
pub open spec fn spec_most_stocked(shirts: Seq<ShirtColor>) -> ShirtColor {
    if count_of(shirts, ShirtColor::Red) > count_of(shirts, ShirtColor::Blue) {
        ShirtColor::Red
    } else {
        ShirtColor::Blue
    }
}

impl Inventory {
    /// The shirt for a customer: of the colour they prefer, if they name
    /// one, else of the colour of which most is in stock.
    pub fn giveaway(&self, user_preference: Option<ShirtColor>) -> (given: ShirtColor)
        ensures
            given == (match user_preference {
                Some(color) => color,
                None => spec_most_stocked(self.shirts@),
            }),
    {
        match user_preference {
            Some(color) => color,
            None => self.most_stocked(),
        }
    }

    /// The colour of which most is in stock; blue if there is as much of
    /// both.
    pub fn most_stocked(&self) -> (color: ShirtColor)
        ensures
            color == spec_most_stocked(self.shirts@),
    {
        let n: usize = self.shirts.len();
        let mut num_red: usize = 0;
        let mut num_blue: usize = 0;
        let mut i: usize = 0;
        while i < n
            invariant
                0 <= i <= n,
                n == self.shirts@.len(),
                num_red == count_of(self.shirts@.take(i as int), ShirtColor::Red),
                num_blue == count_of(self.shirts@.take(i as int), ShirtColor::Blue),
                num_red <= i,
                num_blue <= i,
            decreases n - i,
        {
            proof {
                let next = self.shirts@.take(i as int + 1);
                assert(next.drop_last() =~= self.shirts@.take(i as int));
                assert(next.last() == self.shirts@[i as int]);
            }
            match self.shirts[i] {
                ShirtColor::Red => {
                    num_red += 1;
                },
                ShirtColor::Blue => {
                    num_blue += 1;
                },
            }
            i += 1;
        }
        proof {
            assert(self.shirts@.take(n as int) =~= self.shirts@);
        }
        if num_red > num_blue {
            ShirtColor::Red
        } else {
            ShirtColor::Blue
        }
    }
}

/// The number after `x`.
pub fn add_one_v1(x: u32) -> (y: u32)
    requires
        x < u32::MAX,
    ensures
        y == x + 1,
{
    x + 1
}

} // verus!
