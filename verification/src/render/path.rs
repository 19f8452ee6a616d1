//! Paths made of line and arc segments.
use crate::geometry::Point;
use embedded_graphics::geometry::Angle;
use vstd::prelude::*;

verus! {

/// A single segment of a path.
#[derive(Clone, Copy, Debug, PartialEq)]
pub enum PathSegment {
    MoveTo(Point),
    LineTo(Point),
    ArcTo { center: Point, radius: u32, start: Angle, sweep: Angle },
    Close,
}

/// An immutable path.
#[derive(Clone, Debug, PartialEq)]
pub struct Path {
    pub segments: Vec<PathSegment>,
}

impl Path {
    pub fn segments(&self) -> (r: &[PathSegment])
        ensures
            r@ == self.segments@,
    {
        self.segments.as_slice()
    }
}

impl From<PathBuilder> for Path {
    fn from(builder: PathBuilder) -> (r: Path) {
        builder.build()
    }
}

/// Builds a [`Path`] segment by segment, in order.
#[derive(Clone, Debug)]
pub struct PathBuilder {
    pub segments: Vec<PathSegment>,
}

impl PathBuilder {
    pub fn new() -> (r: Self)
        ensures
            r.segments@ == Seq::<PathSegment>::empty(),
    {
        Self { segments: Vec::new() }
    }

    pub fn move_to(self, point: Point) -> (r: Self)
        ensures
            r.segments@ == self.segments@.push(PathSegment::MoveTo(point)),
    {
        let mut s = self;
        s.segments.push(PathSegment::MoveTo(point));
        s
    }

    pub fn line_to(self, point: Point) -> (r: Self)
        ensures
            r.segments@ == self.segments@.push(PathSegment::LineTo(point)),
    {
        let mut s = self;
        s.segments.push(PathSegment::LineTo(point));
        s
    }

    pub fn arc_to(self, center: Point, radius: u32, start: Angle, sweep: Angle) -> (r: Self)
        ensures
            r.segments@ == self.segments@.push(PathSegment::ArcTo { center, radius, start, sweep }),
    {
        let mut s = self;
        s.segments.push(PathSegment::ArcTo { center, radius, start, sweep });
        s
    }

    pub fn close(self) -> (r: Self)
        ensures
            r.segments@ == self.segments@.push(PathSegment::Close),
    {
        let mut s = self;
        s.segments.push(PathSegment::Close);
        s
    }

    pub fn build(self) -> (r: Path)
        ensures
            r == (Path { segments: self.segments }),
            r.segments@ == self.segments@,
    {
        Path { segments: self.segments }
    }
}

impl vstd::std_specs::convert::FromSpecImpl<PathBuilder> for Path {
    open spec fn obeys_from_spec() -> bool {
        true
    }

    open spec fn from_spec(v: PathBuilder) -> Path {
        Path { segments: v.segments }
    }
}

impl Default for PathBuilder {
    fn default() -> (r: Self)
        ensures
            r.segments@ == Seq::<PathSegment>::empty(),
    {
        Self::new()
    }
}

/// Building a path keeps every segment, in the order it was added.
pub proof fn lemma_builder_keeps_order(b: Seq<PathSegment>, s: PathSegment, i: int)
    requires
        0 <= i < b.len(),
    ensures
        b.push(s)[i] == b[i],
        b.push(s).last() == s,
        b.push(s).len() == b.len() + 1,
{
}

} // verus!
