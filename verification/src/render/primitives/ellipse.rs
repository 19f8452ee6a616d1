//! Ellipses given by their bounding box.
use crate::geometry::{Point, Rect};
use crate::layout::size::Size;
use vstd::prelude::*;

verus! {

/// The ellipse in the box at `top_left` of size `size`.
#[derive(Debug, Clone, Copy, PartialEq, Eq, Structural)]
pub struct Ellipse {
    pub top_left: Point,
    pub size: Size<u32>,
}

impl Ellipse {
    pub fn new(top_left: Point, size: Size<u32>) -> (r: Self)
        ensures
            r.top_left == top_left,
            r.size == size,
    {
        Self { top_left, size }
    }

    /// The box the ellipse lies in.
    pub fn bounding_box(&self) -> (r: Rect)
        ensures
            r == (Rect { top_left: self.top_left, size: self.size }),
    {
        Rect::new(self.top_left, self.size)
    }

    /// The ellipse moved by `by`.
    pub fn translate(&self, by: Point) -> (r: Self)
        requires
            self.top_left.can_add(by),
        ensures
            r.top_left.x == self.top_left.x + by.x,
            r.top_left.y == self.top_left.y + by.y,
            r.size == self.size,
    {
        Self::new(self.top_left.plus(by), self.size)
    }

    pub fn translate_mut(&mut self, by: Point)
        requires
            old(self).top_left.can_add(by),
        ensures
            final(self).top_left.x == old(self).top_left.x + by.x,
            final(self).top_left.y == old(self).top_left.y + by.y,
            final(self).size == old(self).size,
    {
        self.top_left = self.top_left.plus(by);
    }
}

} // verus!
