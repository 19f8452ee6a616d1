//! Render-side sizes and lengths, where a fluid length can also be a plain
//! `Fill`.
use crate::geometry::Padding;
use crate::layout::axis::Axial;
use crate::layout::size::{div_or_zero, sat_add, sat_sub};
use vstd::prelude::*;
use vstd::std_specs::ops::{AddSpecImpl, DivSpecImpl, SubSpecImpl};

verus! {

/// How long a box is along one axis.
#[derive(Clone, Copy, Debug, PartialEq, Eq, Structural)]
pub enum Length {
    /// Fills all the remaining space.
    Fill,
    /// Shrink to the minimum space.
    Shrink,
    /// Fill a portion of available space: `100% / Div(N)`.
    Div(u16),
    /// Fixed pixels count.
    Fixed(u32),
}

impl Length {
    /// `1` for `Fill`, `N` for `Div(N)`, `0` for other lengths.
    pub open spec fn spec_div_factor(self) -> u16 {
        match self {
            Length::Fill => 1,
            Length::Fixed(_) | Length::Shrink => 0,
            Length::Div(d) => d,
        }
    }

    pub fn div_factor(&self) -> (r: u16)
        ensures
            r == self.spec_div_factor(),
    {
        match self {
            Length::Fill => 1,
            Length::Fixed(_) | Length::Shrink => 0,
            Length::Div(div) => *div,
        }
    }

    /// The largest fixed length.
    pub fn infinite() -> (r: Self)
        ensures
            r == Length::Fixed(u32::MAX),
    {
        Length::Fixed(u32::MAX)
    }

    pub fn is_fixed(&self) -> (r: bool)
        ensures
            r == (*self is Fixed),
    {
        match self {
            Length::Fixed(_) => true,
            _ => false,
        }
    }

    /// True for lengths that take a share of the free space.
    pub fn is_fill(&self) -> (r: bool)
        ensures
            r == (self.spec_div_factor() != 0),
    {
        self.div_factor() != 0
    }
}

impl From<u32> for Length {
    fn from(value: u32) -> (r: Length) {
        Length::Fixed(value)
    }
}

impl vstd::std_specs::convert::FromSpecImpl<u32> for Length {
    open spec fn obeys_from_spec() -> bool {
        true
    }

    open spec fn from_spec(v: u32) -> Length {
        Length::Fixed(v)
    }
}

/// A width and a height.
#[derive(Clone, Copy, Debug, PartialEq, Eq, Structural)]
pub struct Size<T> {
    pub width: T,
    pub height: T,
}

impl<T> Size<T> {
    pub fn new(width: T, height: T) -> (r: Self)
        ensures
            r.width == width,
            r.height == height,
    {
        Self { width, height }
    }

    pub fn new_equal(equal: T) -> (r: Self) where T: Copy
        ensures
            r.width == equal,
            r.height == equal,
    {
        Self { width: equal, height: equal }
    }

    pub fn with_width(self, width: T) -> (r: Self)
        ensures
            r.width == width,
            r.height == self.height,
    {
        Self { width, height: self.height }
    }

    pub fn with_height(self, height: T) -> (r: Self)
        ensures
            r.width == self.width,
            r.height == height,
    {
        Self { width: self.width, height }
    }
}

impl<T> From<(T, T)> for Size<T> {
    fn from(value: (T, T)) -> (r: Size<T>) {
        Size { width: value.0, height: value.1 }
    }
}

impl<T> vstd::std_specs::convert::FromSpecImpl<(T, T)> for Size<T> {
    open spec fn obeys_from_spec() -> bool {
        true
    }

    open spec fn from_spec(v: (T, T)) -> Size<T> {
        Size { width: v.0, height: v.1 }
    }
}

impl Size<Length> {
    pub fn is_fixed(&self) -> (r: bool)
        ensures
            r == (self.width is Fixed && self.height is Fixed),
    {
        self.width.is_fixed() && self.height.is_fixed()
    }

    pub fn is_fill(&self) -> (r: bool)
        ensures
            r == (self.width.spec_div_factor() != 0 && self.height.spec_div_factor() != 0),
    {
        self.width.is_fill() && self.height.is_fill()
    }

    pub fn fixed_length(width: u32, height: u32) -> (r: Self)
        ensures
            r.width == Length::Fixed(width),
            r.height == Length::Fixed(height),
    {
        Self { width: Length::Fixed(width), height: Length::Fixed(height) }
    }

    pub fn shrink() -> (r: Self)
        ensures
            r.width == Length::Shrink,
            r.height == Length::Shrink,
    {
        Self { width: Length::Shrink, height: Length::Shrink }
    }

    pub fn fill() -> (r: Self)
        ensures
            r.width == Length::Fill,
            r.height == Length::Fill,
    {
        Self { width: Length::Fill, height: Length::Fill }
    }
}

impl Size<u32> {
    pub fn zero() -> (r: Self)
        ensures
            r.width == 0,
            r.height == 0,
    {
        Self { width: 0, height: 0 }
    }

    /// Grows both components by `by`.
    pub fn expand(self, by: Size<u32>) -> (r: Self)
        requires
            self.width + by.width <= u32::MAX,
            self.height + by.height <= u32::MAX,
        ensures
            r.width == self.width + by.width,
            r.height == self.height + by.height,
    {
        Self::new(self.width + by.width, self.height + by.height)
    }

    pub fn as_fixed_length(self) -> (r: Size<Length>)
        ensures
            r.width == Length::Fixed(self.width),
            r.height == Length::Fixed(self.height),
    {
        Size::new(Length::Fixed(self.width), Length::Fixed(self.height))
    }

    /// The space a padding takes.
    pub fn of_padding(p: Padding) -> (r: Self)
        ensures
            r.width == p.spec_size().width,
            r.height == p.spec_size().height,
    {
        let s = p.size();
        Size::new(s.width, s.height)
    }
}

impl core::ops::Add for Size<u32> {
    type Output = Self;

    fn add(self, rhs: Self) -> (r: Self) {
        Self::new(self.width.saturating_add(rhs.width), self.height.saturating_add(rhs.height))
    }
}

impl AddSpecImpl for Size<u32> {
    open spec fn obeys_add_spec() -> bool {
        true
    }

    open spec fn add_req(self, rhs: Self) -> bool {
        true
    }

    open spec fn add_spec(self, rhs: Self) -> Self {
        Size { width: sat_add(self.width, rhs.width), height: sat_add(self.height, rhs.height) }
    }
}

impl core::ops::Sub for Size<u32> {
    type Output = Self;

    fn sub(self, rhs: Self) -> (r: Self) {
        Self::new(self.width.saturating_sub(rhs.width), self.height.saturating_sub(rhs.height))
    }
}

impl SubSpecImpl for Size<u32> {
    open spec fn obeys_sub_spec() -> bool {
        true
    }

    open spec fn sub_req(self, rhs: Self) -> bool {
        true
    }

    open spec fn sub_spec(self, rhs: Self) -> Self {
        Size { width: sat_sub(self.width, rhs.width), height: sat_sub(self.height, rhs.height) }
    }
}

impl core::ops::Add<u32> for Size<u32> {
    type Output = Self;

    fn add(self, rhs: u32) -> (r: Self) {
        self + Size::new_equal(rhs)
    }
}

impl AddSpecImpl<u32> for Size<u32> {
    open spec fn obeys_add_spec() -> bool {
        true
    }

    open spec fn add_req(self, rhs: u32) -> bool {
        true
    }

    open spec fn add_spec(self, rhs: u32) -> Self {
        Size { width: sat_add(self.width, rhs), height: sat_add(self.height, rhs) }
    }
}

impl core::ops::Sub<u32> for Size<u32> {
    type Output = Self;

    fn sub(self, rhs: u32) -> (r: Self) {
        self - Size::new_equal(rhs)
    }
}

impl SubSpecImpl<u32> for Size<u32> {
    open spec fn obeys_sub_spec() -> bool {
        true
    }

    open spec fn sub_req(self, rhs: u32) -> bool {
        true
    }

    open spec fn sub_spec(self, rhs: u32) -> Self {
        Size { width: sat_sub(self.width, rhs), height: sat_sub(self.height, rhs) }
    }
}

impl core::ops::Add<Padding> for Size<u32> {
    type Output = Self;

    fn add(self, rhs: Padding) -> (r: Self) {
        self + Size::of_padding(rhs)
    }
}

impl AddSpecImpl<Padding> for Size<u32> {
    open spec fn obeys_add_spec() -> bool {
        true
    }

    open spec fn add_req(self, rhs: Padding) -> bool {
        true
    }

    open spec fn add_spec(self, rhs: Padding) -> Self {
        Size {
            width: sat_add(self.width, rhs.spec_size().width),
            height: sat_add(self.height, rhs.spec_size().height),
        }
    }
}

impl core::ops::Sub<Padding> for Size<u32> {
    type Output = Self;

    fn sub(self, rhs: Padding) -> (r: Self) {
        self - Size::of_padding(rhs)
    }
}

impl SubSpecImpl<Padding> for Size<u32> {
    open spec fn obeys_sub_spec() -> bool {
        true
    }

    open spec fn sub_req(self, rhs: Padding) -> bool {
        true
    }

    open spec fn sub_spec(self, rhs: Padding) -> Self {
        Size {
            width: sat_sub(self.width, rhs.spec_size().width),
            height: sat_sub(self.height, rhs.spec_size().height),
        }
    }
}

impl core::ops::Div<u32> for Size<u32> {
    type Output = Self;

    fn div(self, rhs: u32) -> (r: Self) {
        Self::new(self.width / rhs, self.height / rhs)
    }
}

impl DivSpecImpl<u32> for Size<u32> {
    open spec fn obeys_div_spec() -> bool {
        true
    }

    open spec fn div_req(self, rhs: u32) -> bool {
        rhs != 0
    }

    open spec fn div_spec(self, rhs: u32) -> Self {
        Size {
            width: div_or_zero(self.width as int, rhs as int) as u32,
            height: div_or_zero(self.height as int, rhs as int) as u32,
        }
    }
}

impl From<u32> for Size<u32> {
    fn from(value: u32) -> (r: Size<u32>) {
        Size::new(value, value)
    }
}

impl vstd::std_specs::convert::FromSpecImpl<u32> for Size<u32> {
    open spec fn obeys_from_spec() -> bool {
        true
    }

    open spec fn from_spec(v: u32) -> Size<u32> {
        Size { width: v, height: v }
    }
}

impl From<Size<u32>> for Size<Length> {
    fn from(value: Size<u32>) -> (r: Size<Length>) {
        Size::new(Length::Fixed(value.width), Length::Fixed(value.height))
    }
}

impl vstd::std_specs::convert::FromSpecImpl<Size<u32>> for Size<Length> {
    open spec fn obeys_from_spec() -> bool {
        true
    }

    open spec fn from_spec(v: Size<u32>) -> Size<Length> {
        Size { width: Length::Fixed(v.width), height: Length::Fixed(v.height) }
    }
}

impl<S: Copy> Axial for Size<S> {
    type Data = S;

    open spec fn sx(&self) -> S {
        self.width
    }

    open spec fn sy(&self) -> S {
        self.height
    }

    fn x(&self) -> (r: S) {
        self.width
    }

    fn y(&self) -> (r: S) {
        self.height
    }

    fn x_mut(&mut self) -> (r: &mut S) {
        &mut self.width
    }

    fn y_mut(&mut self) -> (r: &mut S) {
        &mut self.height
    }

    fn axial_new(x: S, y: S) -> (r: Self) {
        Self::new(x, y)
    }
}

/// Sizes with ordered components.
pub trait SizeExt: Copy {
    type Data;

    fn width(self) -> Self::Data;

    fn height(self) -> Self::Data;

    /// The side of the largest square that fits.
    fn max_square(self) -> Self::Data;
}

impl SizeExt for Size<u32> {
    type Data = u32;

    fn width(self) -> (r: u32)
        ensures
            r == self.width,
    {
        self.width
    }

    fn height(self) -> (r: u32)
        ensures
            r == self.height,
    {
        self.height
    }

    fn max_square(self) -> (r: u32)
        ensures
            r == (if self.width <= self.height { self.width } else { self.height }),
    {
        if self.width <= self.height {
            self.width
        } else {
            self.height
        }
    }
}

} // verus!
