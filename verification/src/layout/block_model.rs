//! The box model of a block: its border width and its padding.
use crate::geometry::Padding;
use vstd::prelude::*;

verus! {

#[derive(Clone, Copy, Debug, PartialEq, Eq, Structural)]
pub struct BlockModel {
    pub border_width: u32,
    pub padding: Padding,
}

impl BlockModel {
    pub fn zero() -> (r: Self)
        ensures
            r.border_width == 0,
            r.padding == (Padding { top: 0, right: 0, bottom: 0, left: 0 }),
    {
        Self { border_width: 0, padding: Padding::zero() }
    }

    /// The padding plus the border on every side.
    pub open spec fn spec_full_padding(self) -> Padding {
        self.padding.spec_plus(
            Padding {
                top: self.border_width,
                right: self.border_width,
                bottom: self.border_width,
                left: self.border_width,
            },
        )
    }

    pub fn full_padding(&self) -> (r: Padding)
        ensures
            r == self.spec_full_padding(),
    {
        self.padding.plus(Padding::new_equal(self.border_width))
    }

    pub fn border_width(self, border_width: u32) -> (r: Self)
        ensures
            r.border_width == border_width,
            r.padding == self.padding,
    {
        let mut s = self;
        s.border_width = border_width;
        s
    }

    pub fn padding(self, padding: Padding) -> (r: Self)
        ensures
            r.border_width == self.border_width,
            r.padding == padding,
    {
        let mut s = self;
        s.padding = padding;
        s
    }
}

/// The full padding of a block is its padding with its border width added
/// on every side (saturating at `u32::MAX`).
pub proof fn lemma_full_padding_adds_the_border(bm: BlockModel)
    ensures
        bm.spec_full_padding().top as int == vstd::math::min(bm.padding.top + bm.border_width, u32::MAX as int),
        bm.spec_full_padding().right as int == vstd::math::min(bm.padding.right + bm.border_width, u32::MAX as int),
        bm.spec_full_padding().bottom as int == vstd::math::min(bm.padding.bottom + bm.border_width, u32::MAX as int),
        bm.spec_full_padding().left as int == vstd::math::min(bm.padding.left + bm.border_width, u32::MAX as int),
{
}

} // verus!
