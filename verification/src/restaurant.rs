//! A restaurant: what the kitchen serves and how an order is taken.

use vstd::prelude::*;
use vstd::string::*;

verus! {

/// A breakfast. The guest chooses the toast; the fruit is the kitchen's
/// choice.
pub struct Breakfast {
    pub toast: String,
    seasonal_fruit: String,
}

/// What can be had before the meal.
#[derive(Clone, Copy, Debug, PartialEq, Eq, Structural)]
pub enum Appetizer {
    Soup,
    Salad,
}

impl Breakfast {
    /// The toast that the guest has chosen.
    pub closed spec fn chosen_toast(&self) -> Seq<char> {
        self.toast@
    }

    /// The fruit that comes with the meal.
    pub closed spec fn fruit(&self) -> Seq<char> {
        self.seasonal_fruit@
    }

    /// The breakfast of the summer: the toast that was asked for, with
    /// peaches.
    pub fn summer(toast: &str) -> (meal: Breakfast)
        ensures
            meal.chosen_toast() == toast@,
            meal.fruit() == "peaches"@,
    {
        Breakfast { toast: String::from_str(toast), seasonal_fruit: String::from_str("peaches") }
    }

    /// The fruit that comes with the meal.
    pub fn seasonal_fruit(&self) -> (fruit: &str)
        ensures
            fruit@ == self.fruit(),
    {
        self.seasonal_fruit.as_str()
    }
}

/// Hands an order to the guest.
pub fn deliver_order() {
}

/// Corrects an order that went wrong and delivers it.
pub fn fix_bad_order() {
    deliver_order()
}

/// A guest eats at the restaurant: orders the summer breakfast with rye,
/// changes to wheat, and takes the soup.
pub fn eat_at_rest() {
    let mut meal = Breakfast::summer("Rye");
    meal.toast = String::from_str("Wheat");
    assert(meal.toast@ == "Wheat"@);
    assert(meal.fruit() == "peaches"@);
    let _order1 = Appetizer::Soup;
}

} // verus!
