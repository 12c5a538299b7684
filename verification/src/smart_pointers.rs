//! A box of one's own and a shared list.

use std::ops::Deref;
use std::rc::Rc;
use vstd::prelude::*;

verus! {

/// A box that holds one value.
pub struct MyBox<T>(pub T);

impl<T> MyBox<T> {
    /// The box that holds `x`.
    pub fn new(x: T) -> (boxed: MyBox<T>)
        ensures
            boxed.0 == x,
    {
        MyBox(x)
    }
}

impl<T> Deref for MyBox<T> {
    type Target = T;

    /// The value in the box.
    fn deref(&self) -> (value: &T)
        ensures
            *value == self.0,
    {
        &self.0
    }
}

/// A list of numbers whose tail may be shared with other lists.
#[derive(Debug)]
pub enum List {
    Cons(i32, Rc<List>),
    Nil,
}

impl List {
    /// What follows the first number: nothing for the empty list.
    pub fn tail(&self) -> (tail: Option<&Rc<List>>)
        ensures
            match *self {
                List::Cons(_, item) => tail == Some(&item),
                List::Nil => tail is None,
            },
    {
        match self {
            List::Cons(_, item) => Some(item),
            List::Nil => None,
        }
    }
}

} // verus!
