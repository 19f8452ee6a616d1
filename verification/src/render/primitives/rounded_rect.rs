//! Rectangles with rounded corners.
use crate::geometry::{CornerRadii, Point, Rect};
use vstd::prelude::*;

verus! {

#[derive(Debug, Clone, Copy, PartialEq, Eq, Structural)]
pub struct RoundedRect {
    pub rect: Rect,
    pub corners: CornerRadii,
}

impl RoundedRect {
    pub fn new(rect: Rect, corners: CornerRadii) -> (r: Self)
        ensures
            r.rect == rect,
            r.corners == corners,
    {
        Self { rect, corners }
    }

    /// The rounded rectangle moved by `by`.
    pub fn translate(&self, by: Point) -> (r: Self)
        requires
            self.rect.top_left.can_add(by),
        ensures
            r.rect == self.rect.translated(by),
            r.corners == self.corners,
    {
        Self { rect: self.rect.translate(by), corners: self.corners }
    }

    pub fn translate_mut(&mut self, by: Point)
        requires
            old(self).rect.top_left.can_add(by),
        ensures
            final(self).rect == old(self).rect.translated(by),
            final(self).corners == old(self).corners,
    {
        self.rect = self.rect.translate(by);
    }
}

} // verus!
