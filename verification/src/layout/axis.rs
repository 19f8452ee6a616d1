//! Axes and axis-relative ("main"/"cross") access to two-dimensional values.
use crate::geometry::Point;
use vstd::prelude::*;

verus! {

/// One of the two screen axes.
#[derive(Clone, Copy, Debug, PartialEq, Eq, Structural)]
pub enum Axis {
    X,
    Y,
}

/// Something with an `x` and a `y` component of the same type.
///
/// Relative to an [`Axis`], the component along it is the *main* one and the
/// other is the *cross* one.
pub trait Axial: Sized {
    type Data: Copy;

    spec fn sx(&self) -> Self::Data;

    spec fn sy(&self) -> Self::Data;

    fn x(&self) -> (r: Self::Data)
        ensures
            r == self.sx(),
    ;

    fn y(&self) -> (r: Self::Data)
        ensures
            r == self.sy(),
    ;

    fn x_mut(&mut self) -> (r: &mut Self::Data)
        ensures
            *r == old(self).sx(),
            final(self).sx() == *final(r),
            final(self).sy() == old(self).sy(),
    ;

    fn y_mut(&mut self) -> (r: &mut Self::Data)
        ensures
            *r == old(self).sy(),
            final(self).sy() == *final(r),
            final(self).sx() == old(self).sx(),
    ;

    fn axial_new(x: Self::Data, y: Self::Data) -> (r: Self)
        ensures
            r.sx() == x,
            r.sy() == y,
    ;

    fn axial_map<F, U>(&self, f: F) -> (r: (U, U))
        where
            F: Fn(Self::Data) -> U,
        requires
            f.requires((self.sx(),)),
            f.requires((self.sy(),)),
        ensures
            f.ensures((self.sx(),), r.0),
            f.ensures((self.sy(),), r.1),
    {
        (f(self.x()), f(self.y()))
    }

    fn destruct(&self) -> (r: (Self::Data, Self::Data))
        ensures
            r == (self.sx(), self.sy()),
    {
        (self.x(), self.y())
    }

    fn main(&self, axis: Axis) -> (r: Self::Data)
        ensures
            r == (match axis { Axis::X => self.sx(), Axis::Y => self.sy() }),
    {
        match axis {
            Axis::X => self.x(),
            Axis::Y => self.y(),
        }
    }

    fn cross(&self, axis: Axis) -> (r: Self::Data)
        ensures
            r == (match axis { Axis::X => self.sy(), Axis::Y => self.sx() }),
    {
        match axis {
            Axis::X => self.y(),
            Axis::Y => self.x(),
        }
    }

    fn main_mut(&mut self, axis: Axis) -> (r: &mut Self::Data)
        ensures
            *r == (match axis { Axis::X => old(self).sx(), Axis::Y => old(self).sy() }),
            (match axis { Axis::X => final(self).sx(), Axis::Y => final(self).sy() }) == *final(r),
            (match axis { Axis::X => final(self).sy(), Axis::Y => final(self).sx() }) == (match axis { Axis::X => old(self).sy(), Axis::Y => old(self).sx() }),
    {
        match axis {
            Axis::X => self.x_mut(),
            Axis::Y => self.y_mut(),
        }
    }

    fn cross_mut(&mut self, axis: Axis) -> (r: &mut Self::Data)
        ensures
            *r == (match axis { Axis::X => old(self).sy(), Axis::Y => old(self).sx() }),
            (match axis { Axis::X => final(self).sy(), Axis::Y => final(self).sx() }) == *final(r),
            (match axis { Axis::X => final(self).sx(), Axis::Y => final(self).sy() }) == (match axis { Axis::X => old(self).sx(), Axis::Y => old(self).sy() }),
    {
        match axis {
            Axis::X => self.y_mut(),
            Axis::Y => self.x_mut(),
        }
    }

    fn into_axial(self, axis: Axis) -> (r: AxialData<Self>)
        ensures
            r.axis == axis,
            r.data == self,
    {
        AxialData { axis, data: self }
    }

    /// The same value with its main component along `axis` replaced.
    fn with_main(self, axis: Axis, main: Self::Data) -> (r: Self)
        ensures
            (match axis { Axis::X => r.sx(), Axis::Y => r.sy() }) == main,
            (match axis { Axis::X => r.sy(), Axis::Y => r.sx() }) == (match axis { Axis::X => self.sy(), Axis::Y => self.sx() }),
    {
        let c = self.cross(axis);
        match axis {
            Axis::X => Self::axial_new(main, c),
            Axis::Y => Self::axial_new(c, main),
        }
    }

    /// The same value with its cross component across `axis` replaced.
    fn with_cross(self, axis: Axis, cross: Self::Data) -> (r: Self)
        ensures
            (match axis { Axis::X => r.sx(), Axis::Y => r.sy() }) == (match axis { Axis::X => self.sx(), Axis::Y => self.sy() }),
            (match axis { Axis::X => r.sy(), Axis::Y => r.sx() }) == cross,
    {
        let m = self.main(axis);
        match axis {
            Axis::X => Self::axial_new(m, cross),
            Axis::Y => Self::axial_new(cross, m),
        }
    }
}

/// The component of `v` along `axis`.
pub open spec fn smain<T: Axial>(v: &T, axis: Axis) -> T::Data {
    match axis {
        Axis::X => v.sx(),
        Axis::Y => v.sy(),
    }
}

/// The component of `v` across `axis`.
pub open spec fn scross<T: Axial>(v: &T, axis: Axis) -> T::Data {
    match axis {
        Axis::X => v.sy(),
        Axis::Y => v.sx(),
    }
}

impl Axis {
    pub open spec fn spec_inverted(self) -> Axis {
        match self {
            Axis::X => Axis::Y,
            Axis::Y => Axis::X,
        }
    }

    pub fn axial<T: Axial>(self, data: T) -> (r: AxialData<T>)
        ensures
            r.axis == self,
            r.data == data,
    {
        AxialData { axis: self, data }
    }

    /// Builds a value from its main and cross components relative to `self`.
    pub fn canon<T: Axial>(self, main: T::Data, cross: T::Data) -> (r: T)
        ensures
            smain(&r, self) == main,
            scross(&r, self) == cross,
    {
        match self {
            Axis::X => T::axial_new(main, cross),
            Axis::Y => T::axial_new(cross, main),
        }
    }

    pub fn length_name(&self) -> (r: &'static str)
        ensures
            *self == Axis::X ==> r@ == "width"@,
            *self == Axis::Y ==> r@ == "height"@,
    {
        match self {
            Axis::X => "width",
            Axis::Y => "height",
        }
    }

    pub fn dir_name(&self) -> (r: &'static str)
        ensures
            *self == Axis::X ==> r@ == "row"@,
            *self == Axis::Y ==> r@ == "col"@,
    {
        match self {
            Axis::X => "row",
            Axis::Y => "col",
        }
    }

    /// Applies `main` to the main components of `lhs` and `rhs` and `cross`
    /// to their cross components, and builds the result from the two.
    pub fn infix<T, M, C>(self, lhs: T, rhs: T, main: M, cross: C) -> (r: T) where
        T: Axial,
        M: Fn(T::Data, T::Data) -> T::Data,
        C: Fn(T::Data, T::Data) -> T::Data,

        requires
            main.requires((smain(&lhs, self), smain(&rhs, self))),
            cross.requires((scross(&lhs, self), scross(&rhs, self))),
        ensures
            main.ensures((smain(&lhs, self), smain(&rhs, self)), smain(&r, self)),
            cross.ensures((scross(&lhs, self), scross(&rhs, self)), scross(&r, self)),
    {
        let m = main(lhs.main(self), rhs.main(self));
        let c = cross(lhs.cross(self), rhs.cross(self));
        self.canon(m, c)
    }

    pub fn inverted(self) -> (r: Self)
        ensures
            r == self.spec_inverted(),
    {
        match self {
            Axis::X => Axis::Y,
            Axis::Y => Axis::X,
        }
    }
}

/// Inverting an axis twice gives it back, and the main component along an
/// axis is the cross component across the inverted one.
pub proof fn lemma_axis_inversion<T: Axial>(axis: Axis, v: T)
    ensures
        axis.spec_inverted().spec_inverted() == axis,
        axis.spec_inverted() != axis,
        smain(&v, axis) == scross(&v, axis.spec_inverted()),
        scross(&v, axis) == smain(&v, axis.spec_inverted()),
{
}

/// Building a value from main and cross components and reading them back
/// gives the same components, for both axes.
pub proof fn lemma_canon_roundtrip<T: Axial>(axis: Axis, v: T, w: T)
    requires
        smain(&v, axis) == smain(&w, axis),
        scross(&v, axis) == scross(&w, axis),
    ensures
        v.sx() == w.sx(),
        v.sy() == w.sy(),
{
}

impl Axial for Point {
    type Data = i32;

    open spec fn sx(&self) -> i32 {
        self.x
    }

    open spec fn sy(&self) -> i32 {
        self.y
    }

    fn x(&self) -> (r: i32) {
        self.x
    }

    fn y(&self) -> (r: i32) {
        self.y
    }

    fn x_mut(&mut self) -> (r: &mut i32) {
        &mut self.x
    }

    fn y_mut(&mut self) -> (r: &mut i32) {
        &mut self.y
    }

    fn axial_new(x: i32, y: i32) -> (r: Self) {
        Point::new(x, y)
    }
}

impl<T: Copy> Axial for (T, T) {
    type Data = T;

    open spec fn sx(&self) -> T {
        self.0
    }

    open spec fn sy(&self) -> T {
        self.1
    }

    fn x(&self) -> (r: T) {
        self.0
    }

    fn y(&self) -> (r: T) {
        self.1
    }

    fn x_mut(&mut self) -> (r: &mut T) {
        &mut self.0
    }

    fn y_mut(&mut self) -> (r: &mut T) {
        &mut self.1
    }

    fn axial_new(x: T, y: T) -> (r: Self) {
        (x, y)
    }
}

/// A value seen relative to a fixed axis.
#[derive(Clone, Copy)]
pub struct AxialData<T: Axial> {
    pub axis: Axis,
    pub data: T,
}

impl<T: Axial> AxialData<T> {
    pub fn main(&self) -> (r: T::Data)
        ensures
            r == smain(&self.data, self.axis),
    {
        match self.axis {
            Axis::X => self.data.x(),
            Axis::Y => self.data.y(),
        }
    }

    pub fn cross(&self) -> (r: T::Data)
        ensures
            r == scross(&self.data, self.axis),
    {
        match self.axis {
            Axis::X => self.data.y(),
            Axis::Y => self.data.x(),
        }
    }
}

/// A layout direction, fixed at the type level.
pub trait Direction {
    fn axis() -> (r: Axis);
}

/// Left to right.
pub struct RowDir;

impl Direction for RowDir {
    fn axis() -> (r: Axis)
        ensures
            r == Axis::X,
    {
        Axis::X
    }
}

/// Top to bottom.
pub struct ColDir;

impl Direction for ColDir {
    fn axis() -> (r: Axis)
        ensures
            r == Axis::Y,
    {
        Axis::Y
    }
}

/// Placement of something along one axis.
#[derive(Clone, Copy, Debug, PartialEq, Eq, Structural)]
pub enum Anchor {
    Start,
    Center,
    End,
}

/// An anchor on each axis.
#[derive(Clone, Copy, Debug, PartialEq, Eq, Structural)]
pub struct AxisAnchorPoint {
    pub x: Anchor,
    pub y: Anchor,
}

impl Axial for AxisAnchorPoint {
    type Data = Anchor;

    open spec fn sx(&self) -> Anchor {
        self.x
    }

    open spec fn sy(&self) -> Anchor {
        self.y
    }

    fn x(&self) -> (r: Anchor) {
        self.x
    }

    fn y(&self) -> (r: Anchor) {
        self.y
    }

    fn x_mut(&mut self) -> (r: &mut Anchor) {
        &mut self.x
    }

    fn y_mut(&mut self) -> (r: &mut Anchor) {
        &mut self.y
    }

    fn axial_new(x: Anchor, y: Anchor) -> (r: Self) {
        AxisAnchorPoint { x, y }
    }
}

} // verus!
