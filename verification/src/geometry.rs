//! Plain integer geometry shared by the layout engine: points, rectangles,
//! paddings and corner radii.
use crate::layout::size::{sat_add, Size};
use vstd::prelude::*;

verus! {

/// True when `v` fits in an `i32`.
pub open spec fn fits_i32(v: int) -> bool {
    i32::MIN <= v <= i32::MAX
}

/// A point on the integer pixel grid (`x` grows right, `y` grows down).
#[derive(Clone, Copy, Debug, PartialEq, Eq, Structural)]
pub struct Point {
    pub x: i32,
    pub y: i32,
}

impl Point {
    pub fn new(x: i32, y: i32) -> (r: Self)
        ensures
            r.x == x,
            r.y == y,
    {
        Point { x, y }
    }

    pub fn zero() -> (r: Self)
        ensures
            r.x == 0,
            r.y == 0,
    {
        Point { x: 0, y: 0 }
    }

    /// True when `self + by` does not overflow.
    pub open spec fn can_add(self, by: Point) -> bool {
        fits_i32(self.x + by.x) && fits_i32(self.y + by.y)
    }

    /// Component-wise sum.
    pub fn plus(self, by: Point) -> (r: Self)
        requires
            self.can_add(by),
        ensures
            r.x == self.x + by.x,
            r.y == self.y + by.y,
    {
        Point { x: self.x + by.x, y: self.y + by.y }
    }

    /// Component-wise difference.
    pub fn minus(self, by: Point) -> (r: Self)
        requires
            fits_i32(self.x - by.x),
            fits_i32(self.y - by.y),
        ensures
            r.x == self.x - by.x,
            r.y == self.y - by.y,
    {
        Point { x: self.x - by.x, y: self.y - by.y }
    }
}

/// An axis-aligned rectangle: its top-left corner and its size.
#[derive(Clone, Copy, Debug, PartialEq, Eq, Structural)]
pub struct Rect {
    pub top_left: Point,
    pub size: Size<u32>,
}

impl Rect {
    pub fn new(top_left: Point, size: Size<u32>) -> (r: Self)
        ensures
            r.top_left == top_left,
            r.size == size,
    {
        Rect { top_left, size }
    }

    pub fn zero() -> (r: Self)
        ensures
            r.top_left == Point::zero_spec(),
            r.size == Size::<u32>::zero_spec(),
    {
        Rect { top_left: Point::zero(), size: Size::zero() }
    }

    /// The rectangle moved by `by`.
    pub open spec fn translated(self, by: Point) -> Rect {
        Rect {
            top_left: Point { x: (self.top_left.x + by.x) as i32, y: (self.top_left.y + by.y) as i32 },
            size: self.size,
        }
    }

    pub fn translate(&self, by: Point) -> (r: Self)
        requires
            self.top_left.can_add(by),
        ensures
            r == self.translated(by),
    {
        Rect { top_left: self.top_left.plus(by), size: self.size }
    }

    /// True when the rectangle has no area.
    pub open spec fn spec_is_zero_sized(self) -> bool {
        self.size.width == 0 || self.size.height == 0
    }

    pub fn is_zero_sized(&self) -> (r: bool)
        ensures
            r == self.spec_is_zero_sized(),
    {
        self.size.width == 0 || self.size.height == 0
    }

    /// True when `p` lies in the half-open area `[top_left, top_left + size)`.
    pub open spec fn spec_contains(self, p: Point) -> bool {
        &&& self.top_left.x <= p.x < self.top_left.x + self.size.width
        &&& self.top_left.y <= p.y < self.top_left.y + self.size.height
    }

    pub fn contains(&self, p: Point) -> (r: bool)
        ensures
            r == self.spec_contains(p),
    {
        let px = p.x as i64;
        let py = p.y as i64;
        let x = self.top_left.x as i64;
        let y = self.top_left.y as i64;
        x <= px && px < x + self.size.width as i64 && y <= py && py < y + self.size.height as i64
    }

    /// True when every point of `inner` lies in `self` (an empty `inner` lies
    /// everywhere).
    pub open spec fn covers(self, inner: Rect) -> bool {
        ||| inner.spec_is_zero_sized()
        ||| {
            &&& self.top_left.x <= inner.top_left.x
            &&& self.top_left.y <= inner.top_left.y
            &&& inner.top_left.x + inner.size.width <= self.top_left.x + self.size.width
            &&& inner.top_left.y + inner.size.height <= self.top_left.y + self.size.height
        }
    }
}

/// `v` as a length, saturating at `u32::MAX` (`v` is not negative).
pub open spec fn sat_u32(v: int) -> u32 {
    if v > u32::MAX {
        u32::MAX
    } else {
        v as u32
    }
}

impl Rect {
    /// The smallest rectangle that holds the corners of both `self` and
    /// `other` (its size saturating at `u32::MAX`).
    pub open spec fn spec_union(self, other: Rect) -> Rect {
        let left = if self.top_left.x <= other.top_left.x { self.top_left.x } else { other.top_left.x };
        let top = if self.top_left.y <= other.top_left.y { self.top_left.y } else { other.top_left.y };
        let r1 = self.top_left.x + self.size.width;
        let r2 = other.top_left.x + other.size.width;
        let b1 = self.top_left.y + self.size.height;
        let b2 = other.top_left.y + other.size.height;
        let right = if r1 >= r2 { r1 } else { r2 };
        let bottom = if b1 >= b2 { b1 } else { b2 };
        Rect { top_left: Point { x: left, y: top }, size: Size { width: sat_u32(right - left), height: sat_u32(bottom - top) } }
    }

    pub fn union(&self, other: &Rect) -> (r: Rect)
        ensures
            r == self.spec_union(*other),
    {
        let left = if self.top_left.x <= other.top_left.x { self.top_left.x } else { other.top_left.x };
        let top = if self.top_left.y <= other.top_left.y { self.top_left.y } else { other.top_left.y };
        let r1 = self.top_left.x as i64 + self.size.width as i64;
        let r2 = other.top_left.x as i64 + other.size.width as i64;
        let b1 = self.top_left.y as i64 + self.size.height as i64;
        let b2 = other.top_left.y as i64 + other.size.height as i64;
        let right = if r1 >= r2 { r1 } else { r2 };
        let bottom = if b1 >= b2 { b1 } else { b2 };
        let w = right - left as i64;
        let h = bottom - top as i64;
        let width = if w > u32::MAX as i64 { u32::MAX } else { w as u32 };
        let height = if h > u32::MAX as i64 { u32::MAX } else { h as u32 };
        Rect { top_left: Point { x: left, y: top }, size: Size { width, height } }
    }
}

/// The union of two rectangles covers both, as long as its size did not
/// saturate.
pub proof fn lemma_union_covers(a: Rect, b: Rect)
    requires
        a.spec_union(b).size.width < u32::MAX,
        a.spec_union(b).size.height < u32::MAX,
    ensures
        a.spec_union(b).covers(a),
        a.spec_union(b).covers(b),
        a.spec_union(b) == b.spec_union(a),
{
}

impl Rect {
    pub open spec fn zero_spec() -> Rect {
        Rect { top_left: Point { x: 0, y: 0 }, size: Size { width: 0, height: 0 } }
    }
}

impl Point {
    pub open spec fn zero_spec() -> Point {
        Point { x: 0, y: 0 }
    }
}

} // verus!

verus! {

/// Space around the four sides of a box.
#[derive(Clone, Copy, Debug, PartialEq, Eq, Structural)]
pub struct Padding {
    pub top: u32,
    pub right: u32,
    pub bottom: u32,
    pub left: u32,
}

impl Padding {
    pub fn new(top: u32, right: u32, bottom: u32, left: u32) -> (r: Self)
        ensures
            r == (Padding { top, right, bottom, left }),
    {
        Padding { top, right, bottom, left }
    }

    pub fn new_equal(value: u32) -> (r: Self)
        ensures
            r == (Padding { top: value, right: value, bottom: value, left: value }),
    {
        Padding { top: value, right: value, bottom: value, left: value }
    }

    pub fn zero() -> (r: Self)
        ensures
            r == (Padding { top: 0, right: 0, bottom: 0, left: 0 }),
    {
        Padding::new_equal(0)
    }

    /// The space the padding takes: both horizontal sides by both vertical
    /// ones (saturating).
    pub open spec fn spec_size(self) -> Size<u32> {
        Size { width: sat_add(self.left, self.right), height: sat_add(self.top, self.bottom) }
    }

    pub fn size(self) -> (r: Size<u32>)
        ensures
            r == self.spec_size(),
    {
        Size::new(self.left.saturating_add(self.right), self.top.saturating_add(self.bottom))
    }

    /// Where content starts inside the padding.
    pub open spec fn spec_top_left(self) -> Point {
        Point { x: self.left as i32, y: self.top as i32 }
    }

    pub fn top_left(self) -> (r: Point)
        requires
            self.left <= i32::MAX,
            self.top <= i32::MAX,
        ensures
            r == self.spec_top_left(),
    {
        Point::new(self.left as i32, self.top as i32)
    }

    /// Side-wise sum (saturating).
    pub open spec fn spec_plus(self, rhs: Padding) -> Padding {
        Padding {
            top: sat_add(self.top, rhs.top),
            right: sat_add(self.right, rhs.right),
            bottom: sat_add(self.bottom, rhs.bottom),
            left: sat_add(self.left, rhs.left),
        }
    }

    pub fn plus(self, rhs: Padding) -> (r: Padding)
        ensures
            r == self.spec_plus(rhs),
    {
        Padding {
            top: self.top.saturating_add(rhs.top),
            right: self.right.saturating_add(rhs.right),
            bottom: self.bottom.saturating_add(rhs.bottom),
            left: self.left.saturating_add(rhs.left),
        }
    }
}

impl From<u32> for Padding {
    fn from(value: u32) -> (r: Padding) {
        Padding::new_equal(value)
    }
}

impl vstd::std_specs::convert::FromSpecImpl<u32> for Padding {
    open spec fn obeys_from_spec() -> bool {
        true
    }

    open spec fn from_spec(v: u32) -> Padding {
        Padding { top: v, right: v, bottom: v, left: v }
    }
}

impl From<Padding> for Size<u32> {
    fn from(value: Padding) -> (r: Size<u32>) {
        value.size()
    }
}

impl vstd::std_specs::convert::FromSpecImpl<Padding> for Size<u32> {
    open spec fn obeys_from_spec() -> bool {
        true
    }

    open spec fn from_spec(v: Padding) -> Size<u32> {
        v.spec_size()
    }
}

/// The radii of the four corners of a rounded rectangle.
#[derive(Clone, Copy, Debug, PartialEq, Eq, Structural)]
pub struct CornerRadii {
    pub top_left: Size<u32>,
    pub top_right: Size<u32>,
    pub bottom_right: Size<u32>,
    pub bottom_left: Size<u32>,
}

} // verus!
