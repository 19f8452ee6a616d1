//! Rectangle operations done by the graphics library: centring and resizing
//! against an anchor.
use crate::geometry::{fits_i32, Point, Rect};
use crate::layout::axis::{Anchor, Axis};
use crate::layout::size::Size;
use embedded_graphics::geometry::{AnchorX, AnchorY};
use embedded_graphics::primitives::Rectangle;
use vstd::prelude::*;

verus! {

/// A length as the graphics library resizes it: at most `i32::MAX`, and at
/// least 1 (a zero length counts as one pixel).
pub open spec fn resize_len(v: u32) -> int {
    if v > i32::MAX {
        i32::MAX as int
    } else if v == 0 {
        1
    } else {
        v as int
    }
}

/// `d / 2` rounded toward zero.
pub open spec fn half_toward_zero(d: int) -> int {
    if d >= 0 {
        d / 2
    } else {
        -((-d) / 2)
    }
}

/// How far the start edge moves when a length `old_len` is resized to
/// `new_len`, the edge given by `anchor` staying in place.
pub open spec fn resize_shift(old_len: u32, new_len: u32, anchor: Anchor) -> int {
    let delta = resize_len(old_len) - resize_len(new_len);
    match anchor {
        Anchor::Start => 0,
        Anchor::Center => half_toward_zero(delta),
        Anchor::End => delta,
    }
}

/// The offset of the centre pixel of a length from its start.
pub open spec fn center_off(len: u32) -> int {
    if len == 0 {
        0
    } else {
        (len - 1) / 2
    }
}

/// The centre pixel of `r`.
pub open spec fn spec_center(r: Rect) -> Point {
    Point { x: (r.top_left.x + center_off(r.size.width)) as i32, y: (r.top_left.y + center_off(r.size.height)) as i32 }
}

/// The centre pixel of `r`, by `embedded_graphics_core`'s
/// `Rectangle::center`: the top-left corner moved by half of the size less
/// one pixel, rounded down.
#[verifier::external_body]
fn eg_center(r: Rect) -> (c: Point)
    requires
        fits_i32(r.top_left.x + center_off(r.size.width)),
        fits_i32(r.top_left.y + center_off(r.size.height)),
    ensures
        c == spec_center(r),
{
    let eg = Rectangle::new(
        embedded_graphics::geometry::Point::new(r.top_left.x, r.top_left.y),
        embedded_graphics::geometry::Size::new(r.size.width, r.size.height),
    );
    let c = eg.center();
    Point { x: c.x, y: c.y }
}

/// `r` with the width `width`, by `embedded_graphics_core`'s
/// `Rectangle::resized_width`: the left edge moves by `resize_shift`, the
/// rest stays.
#[verifier::external_body]
fn eg_resized_width(r: Rect, width: u32, anchor: Anchor) -> (out: Rect)
    requires
        fits_i32(r.top_left.x + resize_shift(r.size.width, width, anchor)),
    ensures
        out == (Rect {
            top_left: Point { x: (r.top_left.x + resize_shift(r.size.width, width, anchor)) as i32, y: r.top_left.y },
            size: Size { width, height: r.size.height },
        }),
{
    let eg = Rectangle::new(
        embedded_graphics::geometry::Point::new(r.top_left.x, r.top_left.y),
        embedded_graphics::geometry::Size::new(r.size.width, r.size.height),
    );
    let anchor_x = match anchor {
        Anchor::Start => AnchorX::Left,
        Anchor::Center => AnchorX::Center,
        Anchor::End => AnchorX::Right,
    };
    let out = eg.resized_width(width, anchor_x);
    Rect { top_left: Point { x: out.top_left.x, y: out.top_left.y }, size: Size { width: out.size.width, height: out.size.height } }
}

/// `r` with the height `height`, by `embedded_graphics_core`'s
/// `Rectangle::resized_height`: the top edge moves by `resize_shift`, the
/// rest stays.
#[verifier::external_body]
fn eg_resized_height(r: Rect, height: u32, anchor: Anchor) -> (out: Rect)
    requires
        fits_i32(r.top_left.y + resize_shift(r.size.height, height, anchor)),
    ensures
        out == (Rect {
            top_left: Point { x: r.top_left.x, y: (r.top_left.y + resize_shift(r.size.height, height, anchor)) as i32 },
            size: Size { width: r.size.width, height },
        }),
{
    let eg = Rectangle::new(
        embedded_graphics::geometry::Point::new(r.top_left.x, r.top_left.y),
        embedded_graphics::geometry::Size::new(r.size.width, r.size.height),
    );
    let anchor_y = match anchor {
        Anchor::Start => AnchorY::Top,
        Anchor::Center => AnchorY::Center,
        Anchor::End => AnchorY::Bottom,
    };
    let out = eg.resized_height(height, anchor_y);
    Rect { top_left: Point { x: out.top_left.x, y: out.top_left.y }, size: Size { width: out.size.width, height: out.size.height } }
}

impl Rect {
    /// How far the centre of `child` is from the centre of `self`.
    pub fn center_offset_of(&self, child: Rect) -> (r: Point)
        requires
            fits_i32(self.top_left.x + center_off(self.size.width)),
            fits_i32(self.top_left.y + center_off(self.size.height)),
            fits_i32(child.top_left.x + center_off(child.size.width)),
            fits_i32(child.top_left.y + center_off(child.size.height)),
            fits_i32(spec_center(*self).x - spec_center(child).x),
            fits_i32(spec_center(*self).y - spec_center(child).y),
        ensures
            r.x == spec_center(*self).x - spec_center(child).x,
            r.y == spec_center(*self).y - spec_center(child).y,
    {
        eg_center(*self).minus(eg_center(child))
    }

    /// The rectangle with its length along `axis` set to `value`, the edge
    /// that `anchor` names staying in place.
    pub fn resized_axis(&self, axis: Axis, value: u32, anchor: Anchor) -> (r: Rect)
        requires
            axis == Axis::X ==> fits_i32(self.top_left.x + resize_shift(self.size.width, value, anchor)),
            axis == Axis::Y ==> fits_i32(self.top_left.y + resize_shift(self.size.height, value, anchor)),
        ensures
            axis == Axis::X ==> r == (Rect {
                top_left: Point {
                    x: (self.top_left.x + resize_shift(self.size.width, value, anchor)) as i32,
                    y: self.top_left.y,
                },
                size: Size { width: value, height: self.size.height },
            }),
            axis == Axis::Y ==> r == (Rect {
                top_left: Point {
                    x: self.top_left.x,
                    y: (self.top_left.y + resize_shift(self.size.height, value, anchor)) as i32,
                },
                size: Size { width: self.size.width, height: value },
            }),
    {
        match axis {
            Axis::X => eg_resized_width(*self, value, anchor),
            Axis::Y => eg_resized_height(*self, value, anchor),
        }
    }
}

/// Resizing to the length a rectangle already has keeps it where it is,
/// whatever the anchor.
pub proof fn lemma_resize_to_same_len(old_len: u32, anchor: Anchor)
    ensures
        resize_shift(old_len, old_len, anchor) == 0,
{
}

} // verus!
