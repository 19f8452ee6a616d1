//! Line segments.
use crate::geometry::{fits_i32, Point, Rect};
use crate::layout::size::Size;
use vstd::prelude::*;

verus! {

/// The segment from `start` to `end`.
#[derive(Debug, Clone, Copy, PartialEq, Eq, Structural)]
pub struct Line {
    pub start: Point,
    pub end: Point,
}

impl Line {
    pub fn new(start: Point, end: Point) -> (r: Self)
        ensures
            r.start == start,
            r.end == end,
    {
        Self { start, end }
    }

    /// The segment moved by `by`.
    pub fn translate(&self, by: Point) -> (r: Self)
        requires
            self.start.can_add(by),
            self.end.can_add(by),
        ensures
            r.start.x == self.start.x + by.x,
            r.start.y == self.start.y + by.y,
            r.end.x == self.end.x + by.x,
            r.end.y == self.end.y + by.y,
    {
        Self { start: self.start.plus(by), end: self.end.plus(by) }
    }

    pub fn translate_mut(&mut self, by: Point)
        requires
            old(self).start.can_add(by),
            old(self).end.can_add(by),
        ensures
            final(self).start.x == old(self).start.x + by.x,
            final(self).start.y == old(self).start.y + by.y,
            final(self).end.x == old(self).end.x + by.x,
            final(self).end.y == old(self).end.y + by.y,
    {
        self.start = self.start.plus(by);
        self.end = self.end.plus(by);
    }

    /// The rectangle from the start point over the distance to the end point
    /// along each axis.
    pub fn bounding_box(&self) -> (r: Rect)
        ensures
            r.top_left == self.start,
            r.size.width == (if self.end.x >= self.start.x {
                self.end.x - self.start.x
            } else {
                self.start.x - self.end.x
            }),
            r.size.height == (if self.end.y >= self.start.y {
                self.end.y - self.start.y
            } else {
                self.start.y - self.end.y
            }),
    {
        let dx = self.end.x as i64 - self.start.x as i64;
        let dy = self.end.y as i64 - self.start.y as i64;
        let w = if dx >= 0 { dx } else { -dx };
        let h = if dy >= 0 { dy } else { -dy };
        Rect::new(self.start, Size::new(w as u32, h as u32))
    }

    /// The squared length of the segment.
    pub open spec fn spec_len_sq(self) -> int {
        let dx = self.end.x - self.start.x;
        let dy = self.end.y - self.start.y;
        dx * dx + dy * dy
    }

    pub fn len_sq(&self) -> (r: u32)
        requires
            fits_i32(self.end.x - self.start.x),
            fits_i32(self.end.y - self.start.y),
            (self.end.x - self.start.x) * (self.end.x - self.start.x) <= i32::MAX,
            (self.end.y - self.start.y) * (self.end.y - self.start.y) <= i32::MAX,
            self.spec_len_sq() <= u32::MAX,
        ensures
            r == self.spec_len_sq(),
    {
        let dx = self.end.x - self.start.x;
        let dy = self.end.y - self.start.y;
        assert(0 <= dx * dx) by (nonlinear_arith);
        assert(0 <= dy * dy) by (nonlinear_arith);
        (dx * dx) as u32 + (dy * dy) as u32
    }
}

} // verus!
