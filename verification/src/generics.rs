//! Functions and data types that are generic over the values they hold.

use vstd::prelude::*;

verus! {

/// The largest number of a list that is not empty.
pub fn largest_i32(list: &[i32]) -> (largest: &i32)
    requires
        list@.len() > 0,
    ensures
        list@.contains(*largest),
        forall|i: int| 0 <= i < list@.len() ==> list@[i] <= *largest,
{
    let mut largest = &list[0];
    for item in it: list
        invariant
            list@.contains(*largest),
            forall|i: int| 0 <= i < it.index() ==> list@[i] <= *largest,
    {
        if item > largest {
            largest = item;
        }
    }
    largest
}

/// The largest character of a list that is not empty, by code point.
pub fn largest_char(list: &[char]) -> (largest: &char)
    requires
        list@.len() > 0,
    ensures
        list@.contains(*largest),
        forall|i: int| 0 <= i < list@.len() ==> list@[i] <= *largest,
{
    let mut largest = &list[0];
    for item in it: list
        invariant
            list@.contains(*largest),
            forall|i: int| 0 <= i < it.index() ==> list@[i] <= *largest,
    {
        if item > largest {
            largest = item;
        }
    }
    largest
}

/// The first element of a list that is not empty. Elements of an arbitrary
/// type cannot be compared, so no later element is preferred to it.
pub fn largest<T>(list: &[T]) -> (first: &T)
    requires
        list@.len() > 0,
    ensures
        *first == list@[0],
{
    &list[0]
}

/// A point whose two coordinates have the same type.
pub struct Point<T> {
    pub x: T,
    pub y: T,
}

impl<T> Point<T> {
    /// The first coordinate.
    pub fn x(&self) -> (x: &T)
        ensures
            *x == self.x,
    {
        &self.x
    }
}

/// A point whose two coordinates may differ in type.
pub struct Point2<T, U> {
    pub x: T,
    pub y: U,
}

/// A point whose two coordinates may differ in type, and that can be mixed
/// with a point of other types.
pub struct Point3<X1, Y1> {
    pub x: X1,
    pub y: Y1,
}

impl<X1, Y1> Point3<X1, Y1> {
    /// The point that has the first coordinate of `self` and the second
    /// coordinate of `other`.
    pub fn mixup<X2, Y2>(self, other: Point3<X2, Y2>) -> (mixed: Point3<X1, Y2>)
        ensures
            mixed.x == self.x,
            mixed.y == other.y,
    {
        Point3 { x: self.x, y: other.y }
    }
}

} // verus!
