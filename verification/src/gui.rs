//! A screen of components that draw themselves.

use vstd::prelude::*;

verus! {

/// Something that can be drawn.
pub trait Draw {
    /// Draws the component.
    fn draw(&self);
}

/// A screen and the components on it.
pub struct Screen {
    pub components: Vec<Box<dyn Draw>>,
}

impl Screen {
    /// Draws each component of the screen, the first of them first.
    pub fn run(&self) {
        for component in it: self.components.iter() {
            component.draw();
        }
    }
}

/// A button.
pub struct Button {
    pub width: u32,
    pub height: u32,
    pub label: String,
}

impl Draw for Button {
    fn draw(&self) {
    }
}

/// A box to select one of several options in.
pub struct SelectBox {
    pub width: u32,
    pub height: u32,
    pub options: Vec<String>,
}

impl Draw for SelectBox {
    fn draw(&self) {
    }
}

} // verus!
