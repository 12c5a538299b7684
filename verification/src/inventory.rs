//! A stock of shirts, and which colour to give away.

use vstd::prelude::*;

verus! {

/// The colour of a shirt.
#[derive(Debug, PartialEq, Eq, Structural, Copy, Clone)]
pub enum ShirtColor {
    Red,
    Blue,
}

/// The shirts in stock.
pub struct Inventory {
    pub shirts: Vec<ShirtColor>,
}

/// The number of shirts of colour `color` among `shirts`.
pub open spec fn count_of(shirts: Seq<ShirtColor>, color: ShirtColor) -> nat
    decreases shirts.len(),
{
    if shirts.len() == 0 {
        0
    } else {
        count_of(shirts.drop_last(), color) + if shirts.last() == color {
            1nat
        } else {
            0nat
        }
    }
}

/// The colour that `shirts` holds most of; blue where there are as many
/// blue shirts as red ones.
pub open spec fn most_stocked_of(shirts: Seq<ShirtColor>) -> ShirtColor {
    if count_of(shirts, ShirtColor::Red) > count_of(shirts, ShirtColor::Blue) {
        ShirtColor::Red
    } else {
        ShirtColor::Blue
    }
}

impl Inventory {
    /// The colour given away: the one the user prefers, or, where the user
    /// has no preference, the colour most in stock.
    pub fn giveaway(&self, user_preference: Option<ShirtColor>) -> (color: ShirtColor)
        ensures
            color == match user_preference {
                Some(preferred) => preferred,
                None => most_stocked_of(self.shirts@),
            },
    {
        let stocked = || -> (color: ShirtColor)
            ensures
                color == most_stocked_of(self.shirts@),
            {
                self.most_stocked()
            };
        user_preference.unwrap_or_else(stocked)
    }

    /// The colour most in stock; blue where there are as many blue shirts
    /// as red ones.
    pub fn most_stocked(&self) -> (color: ShirtColor)
        ensures
            color == most_stocked_of(self.shirts@),
    {
        let mut red_count: usize = 0;
        let mut blue_count: usize = 0;
        for color in it: &self.shirts
            invariant
                red_count == count_of(self.shirts@.take(it.index() as int), ShirtColor::Red),
                blue_count == count_of(self.shirts@.take(it.index() as int), ShirtColor::Blue),
                red_count + blue_count == it.index(),
        {
            proof {
                let i = it.index() as int;
                assert(i < self.shirts.len());
                assert(self.shirts@.take(i + 1).drop_last() =~= self.shirts@.take(i));
                assert(self.shirts@.take(i + 1).last() == *color);
            }
            match color {
                ShirtColor::Red => red_count += 1,
                ShirtColor::Blue => blue_count += 1,
            };
        }
        assert(self.shirts@.take(self.shirts@.len() as int) =~= self.shirts@);
        if red_count > blue_count {
            ShirtColor::Red
        } else {
            ShirtColor::Blue
        }
    }
}

} // verus!
