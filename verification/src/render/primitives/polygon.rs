//! Simple polygons and the point-in-polygon test.
use crate::geometry::{fits_i32, Point, Rect};
use crate::layout::size::Size;
use crate::render::primitives::line::Line;
use vstd::prelude::*;

verus! {

/// A polygon given by its vertices in order; the last vertex connects back
/// to the first one.
pub struct Polygon {
    pub vertices: Vec<Point>,
}

/// The edge from vertex `i` to the next one, wrapping around.
pub open spec fn edge(vs: Seq<Point>, i: int) -> Line {
    Line { start: vs[i], end: vs[(i + 1) % vs.len() as int] }
}

/// The determinant of `(b - a)` and `(p - a)`: positive when `p` is left of
/// the directed line from `a` to `b` (in screen orientation).
pub open spec fn side(a: Point, b: Point, p: Point) -> int {
    (b.x - a.x) * (p.y - a.y) - (b.y - a.y) * (p.x - a.x)
}

/// How an edge changes the winding number around `p`: an upward crossing
/// with `p` on its left counts `+1`, a downward crossing with `p` on its
/// right counts `-1`.
pub open spec fn winding_step(l: Line, p: Point) -> int {
    if l.start.y <= p.y {
        if l.end.y > p.y && side(l.start, l.end, p) > 0 {
            1
        } else {
            0
        }
    } else if l.end.y <= p.y && side(l.start, l.end, p) < 0 {
        -1
    } else {
        0
    }
}

/// The winding number contributed by the first `n` edges.
pub open spec fn winding(vs: Seq<Point>, p: Point, n: int) -> int
    decreases n,
{
    if n <= 0 {
        0
    } else {
        winding(vs, p, n - 1) + winding_step(edge(vs, n - 1), p)
    }
}

/// `p` is on the left of the line from `a` to `b` exactly when it is on
/// the right of the line from `b` to `a`.
proof fn lemma_side_reversed(a: Point, b: Point, p: Point)
    ensures
        side(b, a, p) == -side(a, b, p),
{
    let (ax, ay, bx, by, px, py) = (a.x as int, a.y as int, b.x as int, b.y as int, p.x as int, p.y as int);
    assert((ax - bx) * (py - by) - (ay - by) * (px - bx) == -((bx - ax) * (py - ay) - (by - ay) * (px - ax)))
        by (nonlinear_arith);
}

/// An edge walked the other way changes the winding number around any
/// point by the opposite amount: an upward crossing with the point on its
/// left becomes a downward crossing with the point on its right.
pub proof fn lemma_reversed_edge_step(a: Point, b: Point, p: Point)
    ensures
        winding_step(Line { start: b, end: a }, p) == -winding_step(Line { start: a, end: b }, p),
{
    lemma_side_reversed(a, b, p);
}

/// The first `k` edges of the reversed polygon are the last edges of the
/// polygon but one, walked the other way.
proof fn lemma_reversed_winding_prefix(vs: Seq<Point>, p: Point, k: int)
    requires
        vs.len() > 0,
        0 <= k <= vs.len() - 1,
    ensures
        winding(vs.reverse(), p, k) == -(winding(vs, p, vs.len() - 1) - winding(vs, p, vs.len() - 1 - k)),
    decreases k,
{
    let n = vs.len() as int;
    let r = vs.reverse();
    if k > 0 {
        lemma_reversed_winding_prefix(vs, p, k - 1);
        let i = k - 1;
        let j = n - 2 - i;
        assert((i + 1) % n == i + 1) by (nonlinear_arith)
            requires
                0 <= i + 1 < n,
        ;
        assert((j + 1) % n == j + 1) by (nonlinear_arith)
            requires
                0 <= j + 1 < n,
        ;
        assert(edge(r, i) == Line { start: vs[j + 1], end: vs[j] });
        assert(edge(vs, j) == Line { start: vs[j], end: vs[j + 1] });
        lemma_reversed_edge_step(vs[j], vs[j + 1], p);
    }
}

/// Which way round a polygon's vertices go does not change what it
/// contains: taken in the reverse order, they wind around every point the
/// opposite way, so the winding number is zero for both or for neither.
pub proof fn lemma_reversed_polygon(vs: Seq<Point>, p: Point)
    requires
        vs.len() > 0,
    ensures
        vs.reverse().len() == vs.len(),
        winding(vs.reverse(), p, vs.len() as int) == -winding(vs, p, vs.len() as int),
        (winding(vs.reverse(), p, vs.len() as int) != 0) == (winding(vs, p, vs.len() as int) != 0),
{
    let n = vs.len() as int;
    let r = vs.reverse();
    lemma_reversed_winding_prefix(vs, p, n - 1);
    assert(n % n == 0) by (nonlinear_arith)
        requires
            n > 0,
    ;
    assert((n - 1 + 1) % n == 0);
    assert(edge(r, n - 1) == Line { start: vs[0], end: vs[n - 1] });
    assert(edge(vs, n - 1) == Line { start: vs[n - 1], end: vs[0] });
    lemma_reversed_edge_step(vs[n - 1], vs[0], p);
}

/// The winding step of an edge along a column `x` from `y_from` to `y_to`.
proof fn lemma_vertical_step(x: i32, y_from: i32, y_to: i32, p: Point)
    ensures
        y_from < y_to ==> winding_step(
            Line { start: Point { x, y: y_from }, end: Point { x, y: y_to } },
            p,
        ) == (if y_from <= p.y < y_to && p.x < x { 1int } else { 0 }),
        y_to < y_from ==> winding_step(
            Line { start: Point { x, y: y_from }, end: Point { x, y: y_to } },
            p,
        ) == (if y_to <= p.y < y_from && p.x < x { -1int } else { 0 }),
{
    let s = side(Point { x, y: y_from }, Point { x, y: y_to }, p);
    assert(s == -((y_to - y_from) * (p.x - x))) by (nonlinear_arith)
        requires
            s == (x - x) * (p.y - y_from) - (y_to - y_from) * (p.x - x),
    ;
    if y_from < y_to {
        assert((y_to - y_from) * (p.x - x) < 0 <==> p.x < x) by (nonlinear_arith)
            requires
                y_to - y_from > 0,
        ;
    }
    if y_to < y_from {
        assert((y_to - y_from) * (p.x - x) > 0 <==> p.x < x) by (nonlinear_arith)
            requires
                y_to - y_from < 0,
        ;
    }
}

/// An axis-aligned rectangle given by its corners contains exactly the
/// points of its half-open box: `x0 <= x < x1` and `y0 <= y < y1` (the
/// corners listed clockwise on screen; listed the other way round they
/// contain the same points, by `lemma_reversed_polygon`).
pub proof fn lemma_rectangle_polygon(x0: i32, y0: i32, x1: i32, y1: i32, p: Point)
    requires
        x0 < x1,
        y0 < y1,
    ensures
        (winding(
            seq![Point { x: x0, y: y0 }, Point { x: x1, y: y0 }, Point { x: x1, y: y1 }, Point { x: x0, y: y1 }],
            p,
            4,
        ) != 0) == (x0 <= p.x < x1 && y0 <= p.y < y1),
{
    let vs = seq![Point { x: x0, y: y0 }, Point { x: x1, y: y0 }, Point { x: x1, y: y1 }, Point { x: x0, y: y1 }];
    assert(vs.len() == 4);
    assert(1int % 4 == 1 && 2int % 4 == 2 && 3int % 4 == 3 && 4int % 4 == 0) by (nonlinear_arith);
    assert(edge(vs, 0) == Line { start: vs[0], end: vs[1] });
    assert(edge(vs, 1) == Line { start: vs[1], end: vs[2] });
    assert(edge(vs, 2) == Line { start: vs[2], end: vs[3] });
    assert(edge(vs, 3) == Line { start: vs[3], end: vs[0] });
    assert(winding_step(edge(vs, 0), p) == 0);
    assert(winding_step(edge(vs, 2), p) == 0);
    lemma_vertical_step(x1, y0, y1, p);
    lemma_vertical_step(x0, y1, y0, p);
    reveal_with_fuel(winding, 5);
}

/// True when computing `side(a, b, p)` in `i32` does not overflow.
pub open spec fn side_fits(a: Point, b: Point, p: Point) -> bool {
    &&& fits_i32(b.x - a.x)
    &&& fits_i32(b.y - a.y)
    &&& fits_i32(p.x - a.x)
    &&& fits_i32(p.y - a.y)
    &&& fits_i32((b.x - a.x) * (p.y - a.y))
    &&& fits_i32((b.y - a.y) * (p.x - a.x))
    &&& fits_i32(side(a, b, p))
}

/// True when the winding test around `p` overflows on no edge.
pub open spec fn winding_fits(vs: Seq<Point>, p: Point) -> bool {
    forall|i: int| 0 <= i < vs.len() ==> #[trigger] side_fits(edge(vs, i).start, edge(vs, i).end, p)
}

impl Polygon {
    /// A polygon needs at least three vertices and must not repeat the first
    /// one at the end.
    pub fn new(vertices: Vec<Point>) -> (r: Self)
        requires
            vertices.len() >= 3,
            vertices@[0] != vertices@.last(),
        ensures
            r.vertices@ == vertices@,
    {
        Self { vertices }
    }

    pub fn count(&self) -> (r: usize)
        ensures
            r == self.vertices@.len(),
    {
        self.vertices.len()
    }

    /// The smallest and the largest coordinates over all vertices.
    pub fn bounds(&self) -> (r: (Point, Point))
        ensures
            forall|i: int|
                0 <= i < self.vertices@.len() ==> r.0.x <= #[trigger] self.vertices@[i].x <= r.1.x
                    && r.0.y <= self.vertices@[i].y <= r.1.y,
            self.vertices@.len() > 0 ==> exists|j: int|
                0 <= j < self.vertices@.len() && #[trigger] self.vertices@[j].x == r.0.x,
            self.vertices@.len() > 0 ==> exists|j: int|
                0 <= j < self.vertices@.len() && #[trigger] self.vertices@[j].y == r.0.y,
            self.vertices@.len() > 0 ==> exists|j: int|
                0 <= j < self.vertices@.len() && #[trigger] self.vertices@[j].x == r.1.x,
            self.vertices@.len() > 0 ==> exists|j: int|
                0 <= j < self.vertices@.len() && #[trigger] self.vertices@[j].y == r.1.y,
    {
        let mut min_x = i32::MAX;
        let mut min_y = i32::MAX;
        let mut max_x = i32::MIN;
        let mut max_y = i32::MIN;
        let mut i: usize = 0;
        while i < self.vertices.len()
            invariant
                i <= self.vertices@.len(),
                forall|k: int|
                    0 <= k < i ==> min_x <= #[trigger] self.vertices@[k].x <= max_x && min_y
                        <= self.vertices@[k].y <= max_y,
                i == 0 ==> min_x == i32::MAX && min_y == i32::MAX && max_x == i32::MIN && max_y == i32::MIN,
                i > 0 ==> exists|j: int| 0 <= j < i && #[trigger] self.vertices@[j].x == min_x,
                i > 0 ==> exists|j: int| 0 <= j < i && #[trigger] self.vertices@[j].y == min_y,
                i > 0 ==> exists|j: int| 0 <= j < i && #[trigger] self.vertices@[j].x == max_x,
                i > 0 ==> exists|j: int| 0 <= j < i && #[trigger] self.vertices@[j].y == max_y,
            decreases self.vertices@.len() - i,
        {
            let p = self.vertices[i];
            assert(self.vertices@[i as int] == p);
            if p.x < min_x {
                min_x = p.x;
            }
            if p.y < min_y {
                min_y = p.y;
            }
            if p.x > max_x {
                max_x = p.x;
            }
            if p.y > max_y {
                max_y = p.y;
            }
            proof {
                if i == 0 {
                    assert(self.vertices@[0].x == min_x);
                    assert(self.vertices@[0].y == min_y);
                    assert(self.vertices@[0].x == max_x);
                    assert(self.vertices@[0].y == max_y);
                } else {
                    if min_x == p.x {
                        assert(self.vertices@[i as int].x == min_x);
                    }
                    if min_y == p.y {
                        assert(self.vertices@[i as int].y == min_y);
                    }
                    if max_x == p.x {
                        assert(self.vertices@[i as int].x == max_x);
                    }
                    if max_y == p.y {
                        assert(self.vertices@[i as int].y == max_y);
                    }
                }
            }
            i = i + 1;
        }
        (Point::new(min_x, min_y), Point::new(max_x, max_y))
    }

    /// The smallest rectangle from the smallest to the largest coordinates
    /// over all vertices.
    pub fn bounding_box(&self) -> (r: Rect)
        requires
            self.vertices@.len() > 0,
        ensures
            forall|i: int|
                0 <= i < self.vertices@.len() ==> r.top_left.x <= #[trigger] self.vertices@[i].x <= r.top_left.x
                    + r.size.width && r.top_left.y <= self.vertices@[i].y <= r.top_left.y + r.size.height,
            exists|j: int| 0 <= j < self.vertices@.len() && #[trigger] self.vertices@[j].x == r.top_left.x,
            exists|j: int| 0 <= j < self.vertices@.len() && #[trigger] self.vertices@[j].y == r.top_left.y,
            exists|j: int|
                0 <= j < self.vertices@.len() && #[trigger] self.vertices@[j].x == r.top_left.x + r.size.width,
            exists|j: int|
                0 <= j < self.vertices@.len() && #[trigger] self.vertices@[j].y == r.top_left.y + r.size.height,
    {
        let (min, max) = self.bounds();
        let w = (max.x as i64 - min.x as i64) as u32;
        let h = (max.y as i64 - min.y as i64) as u32;
        Rect::new(min, Size::new(w, h))
    }

    /// The polygon moved by `by`.
    pub fn translate(&self, by: Point) -> (r: Self)
        requires
            forall|i: int| 0 <= i < self.vertices@.len() ==> (#[trigger] self.vertices@[i]).can_add(by),
        ensures
            r.vertices@.len() == self.vertices@.len(),
            forall|i: int|
                0 <= i < r.vertices@.len() ==> (#[trigger] r.vertices@[i]).x == self.vertices@[i].x + by.x
                    && r.vertices@[i].y == self.vertices@[i].y + by.y,
    {
        let mut vertices: Vec<Point> = Vec::new();
        let mut i: usize = 0;
        while i < self.vertices.len()
            invariant
                i <= self.vertices@.len(),
                forall|k: int| 0 <= k < self.vertices@.len() ==> (#[trigger] self.vertices@[k]).can_add(by),
                vertices@.len() == i,
                forall|k: int|
                    0 <= k < i ==> (#[trigger] vertices@[k]).x == self.vertices@[k].x + by.x && vertices@[k].y
                        == self.vertices@[k].y + by.y,
            decreases self.vertices@.len() - i,
        {
            assert(self.vertices@[i as int].can_add(by));
            vertices.push(self.vertices[i].plus(by));
            i = i + 1;
        }
        Polygon { vertices }
    }

    pub fn translate_mut(&mut self, by: Point)
        requires
            forall|i: int| 0 <= i < old(self).vertices@.len() ==> (#[trigger] old(self).vertices@[i]).can_add(by),
        ensures
            final(self).vertices@.len() == old(self).vertices@.len(),
            forall|i: int|
                0 <= i < final(self).vertices@.len() ==> (#[trigger] final(self).vertices@[i]).x == old(
                    self,
                ).vertices@[i].x + by.x && final(self).vertices@[i].y == old(self).vertices@[i].y + by.y,
    {
        *self = self.translate(by);
    }

    /// The edges, each vertex to the next, the last one back to the first.
    pub fn lines(&self) -> (r: Vec<Line>)
        requires
            self.vertices@.len() > 0,
        ensures
            r@.len() == self.vertices@.len(),
            forall|i: int| 0 <= i < r@.len() ==> #[trigger] r@[i] == edge(self.vertices@, i),
    {
        let n = self.vertices.len();
        let mut out: Vec<Line> = Vec::new();
        let mut i: usize = 0;
        while i < n
            invariant
                n == self.vertices@.len(),
                n > 0,
                i <= n,
                out@.len() == i,
                forall|k: int| 0 <= k < i ==> #[trigger] out@[k] == edge(self.vertices@, k),
            decreases n - i,
        {
            let next = if i + 1 == n {
                0
            } else {
                i + 1
            };
            assert(next == (i + 1) % (n as int)) by (nonlinear_arith)
                requires
                    i < n,
                    next == (if i + 1 == n { 0 } else { i + 1 }),
            ;
            out.push(Line::new(self.vertices[i], self.vertices[next]));
            i = i + 1;
        }
        out
    }

    /// True when the winding number of the polygon around `point` is not
    /// zero.
    pub fn contains(&self, point: Point) -> (r: bool)
        requires
            self.vertices@.len() > 0,
            self.vertices@.len() <= i32::MAX,
            winding_fits(self.vertices@, point),
        ensures
            r == (winding(self.vertices@, point, self.vertices@.len() as int) != 0),
    {
        let n = self.vertices.len();
        let mut w: i32 = 0;
        let mut i: usize = 0;
        while i < n
            invariant
                n == self.vertices@.len(),
                n > 0,
                n <= i32::MAX,
                i <= n,
                winding_fits(self.vertices@, point),
                w == winding(self.vertices@, point, i as int),
                -(i as int) <= w <= i,
            decreases n - i,
        {
            let next = if i + 1 == n {
                0
            } else {
                i + 1
            };
            assert(next == (i + 1) % (n as int)) by (nonlinear_arith)
                requires
                    i < n,
                    next == (if i + 1 == n { 0 } else { i + 1 }),
            ;
            let start = self.vertices[i];
            let end = self.vertices[next];
            assert(side_fits(edge(self.vertices@, i as int).start, edge(self.vertices@, i as int).end, point));
            let det = Self::side_of(start, end, point);
            let step: i32 = if start.y <= point.y {
                if end.y > point.y && det > 0 {
                    1
                } else {
                    0
                }
            } else if end.y <= point.y && det < 0 {
                -1
            } else {
                0
            };
            w = w + step;
            i = i + 1;
        }
        w != 0
    }

    /// Whether computing `side(a, b, p)` in `i32` does not overflow.
    fn side_fits_check(a: Point, b: Point, p: Point) -> (r: bool)
        ensures
            r == side_fits(a, b, p),
    {
        let bx = b.x as i64 - a.x as i64;
        let by = b.y as i64 - a.y as i64;
        let px = p.x as i64 - a.x as i64;
        let py = p.y as i64 - a.y as i64;
        let lo = i32::MIN as i64;
        let hi = i32::MAX as i64;
        if bx < lo || bx > hi || by < lo || by > hi || px < lo || px > hi || py < lo || py > hi {
            return false;
        }
        assert(-0x4000_0000_0000_0000 <= bx * py <= 0x4000_0000_0000_0000) by (nonlinear_arith)
            requires
                -0x8000_0000 <= bx <= 0x7fff_ffff,
                -0x8000_0000 <= py <= 0x7fff_ffff,
        ;
        assert(-0x4000_0000_0000_0000 <= by * px <= 0x4000_0000_0000_0000) by (nonlinear_arith)
            requires
                -0x8000_0000 <= by <= 0x7fff_ffff,
                -0x8000_0000 <= px <= 0x7fff_ffff,
        ;
        let m1 = bx * py;
        let m2 = by * px;
        if m1 < lo || m1 > hi || m2 < lo || m2 > hi {
            return false;
        }
        let d = m1 - m2;
        d >= lo && d <= hi
    }

    /// The point-in-polygon test where it can be computed without overflow:
    /// `None` for a polygon without vertices, with more than `i32::MAX` of
    /// them, or where the test around `point` overflows.
    pub fn contains_checked(&self, point: Point) -> (r: Option<bool>)
        ensures
            r is Some <==> (0 < self.vertices@.len() <= i32::MAX && winding_fits(self.vertices@, point)),
            r matches Some(b) ==> b == (winding(self.vertices@, point, self.vertices@.len() as int) != 0),
    {
        let n = self.vertices.len();
        if n == 0 || n > i32::MAX as usize {
            return None;
        }
        let mut i: usize = 0;
        while i < n
            invariant
                n == self.vertices@.len(),
                0 < n,
                i <= n,
                forall|k: int| 0 <= k < i ==> #[trigger] side_fits(
                    edge(self.vertices@, k).start,
                    edge(self.vertices@, k).end,
                    point,
                ),
            decreases n - i,
        {
            let next = if i + 1 == n {
                0
            } else {
                i + 1
            };
            assert(next == (i + 1) % (n as int)) by (nonlinear_arith)
                requires
                    i < n,
                    next == (if i + 1 == n { 0 } else { i + 1 }),
            ;
            if !Self::side_fits_check(self.vertices[i], self.vertices[next], point) {
                assert(!side_fits(edge(self.vertices@, i as int).start, edge(self.vertices@, i as int).end, point));
                return None;
            }
            i = i + 1;
        }
        Some(self.contains(point))
    }

    fn side_of(a: Point, b: Point, p: Point) -> (r: i32)
        requires
            side_fits(a, b, p),
        ensures
            r == side(a, b, p),
    {
        let bx = b.x - a.x;
        let by = b.y - a.y;
        let px = p.x - a.x;
        let py = p.y - a.y;
        bx * py - by * px
    }
}

} // verus!
