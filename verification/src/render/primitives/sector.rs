//! Circle sectors.
use crate::geometry::Point;
use embedded_graphics::geometry::Angle;
use vstd::prelude::*;

verus! {

/// The sector of the circle with diameter `diameter` in the square at
/// `top_left`, from `start_angle` over `sweep_angle`.
#[derive(Debug, Clone, Copy, PartialEq)]
pub struct Sector {
    pub top_left: Point,
    pub diameter: u32,
    pub start_angle: Angle,
    pub sweep_angle: Angle,
}

impl Sector {
    pub fn new(top_left: Point, diameter: u32, start_angle: Angle, sweep_angle: Angle) -> (r: Self)
        ensures
            r.top_left == top_left,
            r.diameter == diameter,
            r.start_angle == start_angle,
            r.sweep_angle == sweep_angle,
    {
        Self { top_left, diameter, start_angle, sweep_angle }
    }

    /// The sector moved by `by`.
    pub fn translate(&self, by: Point) -> (r: Self)
        requires
            self.top_left.can_add(by),
        ensures
            r.top_left.x == self.top_left.x + by.x,
            r.top_left.y == self.top_left.y + by.y,
            r.diameter == self.diameter,
            r.start_angle == self.start_angle,
            r.sweep_angle == self.sweep_angle,
    {
        let mut new = *self;
        new.top_left = new.top_left.plus(by);
        new
    }

    pub fn translate_mut(&mut self, by: Point)
        requires
            old(self).top_left.can_add(by),
        ensures
            final(self).top_left.x == old(self).top_left.x + by.x,
            final(self).top_left.y == old(self).top_left.y + by.y,
            final(self).diameter == old(self).diameter,
            final(self).start_angle == old(self).start_angle,
            final(self).sweep_angle == old(self).sweep_angle,
    {
        self.top_left = self.top_left.plus(by);
    }
}

} // verus!
