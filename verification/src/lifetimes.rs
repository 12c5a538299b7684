//! Functions that hand back one of the string slices they were given.

use crate::slices::first_word_spec;
use crate::slices::first_word_end;
use crate::slices::slice_to_word_end;
use std::fmt::Display;
use vstd::prelude::*;
use vstd::utf8::encode_utf8;

verus! {

/// The longer of two texts, by their length in bytes; the second where
/// they are equally long.
pub open spec fn longest_spec(x: Seq<char>, y: Seq<char>) -> Seq<char> {
    if encode_utf8(x).len() > encode_utf8(y).len() {
        x
    } else {
        y
    }
}

/// The longer of `x` and `y`, by their length in bytes; `y` where they are
/// equally long.
pub fn longest<'a>(x: &'a str, y: &'a str) -> (longer: &'a str)
    ensures
        longer@ == longest_spec(x@, y@),
{
    if x.as_bytes().len() > y.as_bytes().len() {
        x
    } else {
        y
    }
}

/// The first of the two texts, whatever the second is.
pub fn longest_one_param<'a>(x: &'a str, y: &str) -> (first: &'a str)
    ensures
        first@ == x@,
{
    x
}

/// The longer of `x` and `y`, as [`longest`] gives it. The announcement is
/// the caller's to make.
pub fn longest_with_an_announcement<'a, T>(x: &'a str, y: &'a str, ann: T) -> (longer: &'a str)
    where
        T: Display,
    ensures
        longer@ == longest_spec(x@, y@),
{
    if x.as_bytes().len() > y.as_bytes().len() {
        x
    } else {
        y
    }
}

/// A part of a longer text, which it borrows.
pub struct ImportantExcerpt<'a> {
    pub part: &'a str,
}

impl<'a> ImportantExcerpt<'a> {
    /// The level of every excerpt: three.
    pub fn level(&self) -> (level: i32)
        ensures
            level == 3,
    {
        3
    }

    /// The part that the excerpt holds. The announcement is the caller's to
    /// make.
    pub fn announce_and_return_part(&self, announcement: &str) -> (part: &str)
        ensures
            part@ == self.part@,
    {
        self.part
    }
}

/// The first word of `s`: the text before its first space, or all of it
/// where it has no space.
pub fn first_word(s: &str) -> (word: &str)
    ensures
        word@ == first_word_spec(s@),
{
    let end = first_word_end(s.as_bytes());
    slice_to_word_end(s, end)
}

} // verus!
