//! Circles given by their bounding square.
use crate::geometry::{Point, Rect};
use crate::layout::size::Size;
use vstd::prelude::*;

verus! {

/// The circle with diameter `diameter` in the square at `top_left`.
#[derive(Debug, Clone, Copy, PartialEq, Eq, Structural)]
pub struct Circle {
    pub top_left: Point,
    pub diameter: u32,
}

impl Circle {
    pub fn new(top_left: Point, diameter: u32) -> (r: Self)
        ensures
            r.top_left == top_left,
            r.diameter == diameter,
    {
        Self { top_left, diameter }
    }

    /// The square the circle lies in.
    pub fn bounding_box(&self) -> (r: Rect)
        ensures
            r == (Rect { top_left: self.top_left, size: Size { width: self.diameter, height: self.diameter } }),
    {
        Rect::new(self.top_left, Size::new_equal(self.diameter))
    }

    /// The circle moved by `by`.
    pub fn translate(&self, by: Point) -> (r: Self)
        requires
            self.top_left.can_add(by),
        ensures
            r.top_left.x == self.top_left.x + by.x,
            r.top_left.y == self.top_left.y + by.y,
            r.diameter == self.diameter,
    {
        let mut new = *self;
        new.top_left = new.top_left.plus(by);
        new
    }

    pub fn translate_mut(&mut self, by: Point)
        requires
            old(self).top_left.can_add(by),
        ensures
            final(self).top_left.x == old(self).top_left.x + by.x,
            final(self).top_left.y == old(self).top_left.y + by.y,
            final(self).diameter == old(self).diameter,
    {
        self.top_left = self.top_left.plus(by);
    }
}

} // verus!
