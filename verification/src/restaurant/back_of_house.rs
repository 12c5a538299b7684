//! The kitchen.

use vstd::prelude::*;
use vstd::string::StringExecFns;

verus! {

/// An order that went wrong is cooked again and delivered.
pub fn fix_incorrect_order() {
    cook_order();
    crate::restaurant::deliver_order();
}

/// An order is cooked. Nothing changes.
pub fn cook_order() {
}

/// A breakfast. The guest picks the toast; the fruit is the chef's choice.
pub struct Breakfast {
    pub toast: String,
    pub(crate) seasonal_fruit: String,
}

impl Breakfast {
    /// The toast that comes with the breakfast.
    pub open(crate) spec fn bread(&self) -> Seq<char> {
        self.toast@
    }

    /// The fruit that comes with the breakfast.
    pub open(crate) spec fn fruit(&self) -> Seq<char> {
        self.seasonal_fruit@
    }

    /// The breakfast of summer with the given toast: it comes with peaches.
    pub fn summer(toast: &str) -> (meal: Breakfast)
        ensures
            meal.bread() == toast@,
            meal.fruit() == "Peaches"@,
    {
        Breakfast {
            toast: String::from_str(toast),
            seasonal_fruit: String::from_str("Peaches"),
        }
    }
}

/// What comes before the meal.
#[derive(Debug, Clone, Copy, PartialEq, Eq, Structural)]
pub enum Appetizer {
    Soup,
    Salad,
}

} // verus!
