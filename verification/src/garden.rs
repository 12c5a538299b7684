//! What grows in the garden.

use vstd::prelude::*;

verus! {

/// An asparagus plant.
pub struct Asparagus {
    name: String,
}

impl Asparagus {
    /// The name of the plant.
    pub closed spec fn name_spec(&self) -> Seq<char> {
        self.name@
    }

    /// The plant of name `new_name`.
    pub fn new(new_name: String) -> (plant: Self)
        ensures
            plant.name_spec() == new_name@,
    {
        Self { name: new_name }
    }

    /// The name of the plant.
    #[allow(non_snake_case)]
    pub fn getName(&self) -> (name: &String)
        ensures
            name@ == self.name_spec(),
    {
        &self.name
    }
}

} // verus!
