//! Line styles.
use crate::render::Color;
use vstd::prelude::*;

verus! {

/// The algorithm a line is drawn with.
#[derive(Debug, PartialEq, Eq, Clone, Copy, Structural)]
pub enum LineAlgo {
    Bresenham,
    XiaolinWu,
    Midpoint,
}

pub struct LineStyle<C: Color> {
    pub color: Option<C>,
    pub algo: LineAlgo,
}

impl<C: Color> LineStyle<C> {
    /// A line without a color draws nothing.
    pub fn should_draw(&self) -> (r: bool)
        ensures
            r == self.color.is_some(),
    {
        self.color.is_some()
    }
}

} // verus!
