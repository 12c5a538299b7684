//! A restaurant: the front of the house, the back of the house, and a
//! customer's visit.

pub mod back_of_house;
pub mod customer;
pub mod front_of_house;

use crate::restaurant::back_of_house::Appetizer;
use crate::restaurant::back_of_house::Breakfast;
use crate::restaurant::front_of_house::hosting;
use vstd::prelude::*;
use vstd::string::StringExecFns;

verus! {

/// A visit: the customer is put on the waiting list, orders a summer
/// breakfast with rye bread, changes the bread to white, and orders a soup
/// and a salad. Nothing is handed back.
pub fn eat_at_restaurant() {
    crate::restaurant::front_of_house::hosting::add_to_waitlist();

    front_of_house::hosting::add_to_waitlist();

    let mut meal = Breakfast::summer("Rye Bread");

    meal.toast = String::from_str("White Bread");

    let order1 = Appetizer::Soup;
    let order2 = Appetizer::Salad;

    hosting::add_to_waitlist();
}

/// The order is delivered. Nothing changes.
pub fn deliver_order() {
}

} // verus!
