//! Laid-out trees: every node's rectangles relative to its parent.
use crate::geometry::{Padding, Point, Rect};
use crate::layout::axis::{scross, smain, Axial, Axis};
use crate::layout::limits::{canon_size, Limits};
use crate::layout::size::{sat_add, sat_sub, Length, Size};
use crate::layout::tree::{
    effective_children, effective_single_child, lemma_effective_children, spec_effective_children, ElId,
    LayoutArena, LayoutTree,
};
use crate::layout::flex::{
    align_shift, canon_point, fixed_item_limits, flex_laid_out, flex_sizing, fluid_item_limits, is_fluid, item_cross_start, item_start,
    line_cross, line_end_from, line_measures, main_lens, model_flex, shown_models, shown_of, takes_part,
    lemma_flex_unique, lemma_moved_identical, lemma_zero_identical,
};
use crate::layout::incremental::identical;
use crate::layout::{Align, DevHoveredLayout, FlexLayout, LayoutData, LayoutKind};
use vstd::prelude::*;
use vstd::std_specs::cmp::PartialEqSpecImpl;

verus! {

/// The inputs a node was laid out with, kept so that the node can be laid
/// out again on its own.
#[derive(Clone, Copy, Debug, PartialEq, Eq, Structural)]
pub struct Retained {
    pub parent_limits: Limits,
    pub parent_size: Size<Length>,
    pub min_size: Size<u32>,
}

/// A laid-out node: its outer (border box) and inner (content box)
/// rectangles relative to the parent's inner top-left corner, and its
/// children relative to its own inner top-left corner.
#[derive(Debug)]
pub struct LayoutModel {
    pub id: ElId,
    pub outer: Rect,
    pub inner: Rect,
    pub children: Vec<LayoutModel>,
    pub retained: Option<Retained>,
}

/// `a + b` for a coordinate, saturating at the ends of `i32`.
pub open spec fn sat_add_i32(a: i32, b: i32) -> i32 {
    if a + b > i32::MAX {
        i32::MAX
    } else if a + b < i32::MIN {
        i32::MIN
    } else {
        (a + b) as i32
    }
}

/// `p` moved by `by`, saturating.
pub open spec fn sat_translate(p: Point, by: Point) -> Point {
    Point { x: sat_add_i32(p.x, by.x), y: sat_add_i32(p.y, by.y) }
}

pub(crate) fn add_i32_sat(a: i32, b: i32) -> (r: i32)
    ensures
        r == sat_add_i32(a, b),
{
    let s = a as i64 + b as i64;
    if s > i32::MAX as i64 {
        i32::MAX
    } else if s < i32::MIN as i64 {
        i32::MIN
    } else {
        s as i32
    }
}

/// `v` as a coordinate, saturating at `i32::MAX`.
pub open spec fn coord(v: u32) -> i32 {
    if v > i32::MAX {
        i32::MAX
    } else {
        v as i32
    }
}

pub fn to_coord(v: u32) -> (r: i32)
    ensures
        r == coord(v),
{
    if v > i32::MAX as u32 {
        i32::MAX
    } else {
        v as i32
    }
}

/// The offset of content with free space `free` along one axis.
pub open spec fn align_offset(align: Align, free: u32) -> i32 {
    match align {
        Align::Start => 0,
        Align::Center => (coord(free) / 2) as i32,
        Align::End => coord(free),
    }
}

impl LayoutModel {
    /// The geometry of a model: its identity, rectangles and children,
    /// without the inputs it was laid out with.
    pub open spec fn same_geometry(self, other: LayoutModel) -> bool
        decreases self,
    {
        &&& self.id == other.id
        &&& self.outer == other.outer
        &&& self.inner == other.inner
        &&& self.children@.len() == other.children@.len()
        &&& forall|i: int|
            0 <= i < self.children@.len() ==> (#[trigger] self.children@[i]).same_geometry(other.children@[i])
    }

    /// Compares the geometry of two models.
    pub fn geometry_eq(&self, other: &Self) -> (r: bool)
        ensures
            r == self.same_geometry(*other),
        decreases self,
    {
        if self.id != other.id || self.outer != other.outer || self.inner != other.inner
            || self.children.len() != other.children.len() {
            return false;
        }
        let mut i: usize = 0;
        while i < self.children.len()
            invariant
                self.children@.len() == other.children@.len(),
                i <= self.children@.len(),
                forall|k: int| 0 <= k < i ==> (#[trigger] self.children@[k]).same_geometry(other.children@[k]),
            decreases self.children@.len() - i,
        {
            if !self.children[i].geometry_eq(&other.children[i]) {
                return false;
            }
            i = i + 1;
        }
        true
    }

    /// A node of inner size `inner_size` at the origin, with `children`.
    pub fn new(inner_size: Size<u32>, children: Vec<LayoutModel>) -> (r: Self)
        ensures
            r.id == 0,
            r.outer == (Rect { top_left: Point { x: 0, y: 0 }, size: inner_size }),
            r.inner == r.outer,
            r.children@ == children@,
            r.retained is None,
    {
        Self {
            id: 0,
            outer: Rect::new(Point::zero(), inner_size),
            inner: Rect::new(Point::zero(), inner_size),
            children,
            retained: None,
        }
    }

    /// An empty node at the origin.
    pub fn zero() -> (r: Self)
        ensures
            r.id == 0,
            r.outer == (Rect { top_left: Point { x: 0, y: 0 }, size: Size { width: 0, height: 0 } }),
            r.inner == r.outer,
            r.children@.len() == 0,
            r.retained is None,
    {
        Self { id: 0, outer: Rect::zero(), inner: Rect::zero(), children: Vec::new(), retained: None }
    }

    /// Stamps the node with the identity it was laid out for.
    pub fn with_id(self, id: ElId) -> (r: Self)
        ensures
            r.id == id,
            r.outer == self.outer,
            r.inner == self.inner,
            r.children@ == self.children@,
            r.retained == self.retained,
    {
        let mut s = self;
        s.id = id;
        s
    }

    /// Keeps the inputs the node was laid out with.
    pub fn with_retained(self, retained: Retained) -> (r: Self)
        ensures
            r.id == self.id,
            r.outer == self.outer,
            r.inner == self.inner,
            r.children@ == self.children@,
            r.retained == Some(retained),
    {
        let mut s = self;
        s.retained = Some(retained);
        s
    }

    /// Puts the padding (which includes the border) around the content: the
    /// content moves in by the padding's top-left corner and the outer box
    /// grows by the padding's size (saturating).
    pub fn with_full_padding(self, full_padding: Padding) -> (r: Self)
        ensures
            r.id == self.id,
            r.children@ == self.children@,
            r.retained == self.retained,
            r.inner.size == self.inner.size,
            r.inner.top_left == sat_translate(
                self.inner.top_left,
                Point { x: coord(full_padding.left), y: coord(full_padding.top) },
            ),
            r.outer.top_left == self.outer.top_left,
            r.outer.size == self.outer.size.spec_add(full_padding.spec_size()),
    {
        let by = Point::new(to_coord(full_padding.left), to_coord(full_padding.top));
        let mut s = self;
        s.inner = Rect::new(
            Point::new(add_i32_sat(s.inner.top_left.x, by.x), add_i32_sat(s.inner.top_left.y, by.y)),
            s.inner.size,
        );
        s.outer = Rect::new(s.outer.top_left, s.outer.size + full_padding.size());
        s
    }

    pub fn outer_size(&self) -> (r: Size<u32>)
        ensures
            r == self.outer.size,
    {
        self.outer.size
    }

    /// Moves the node (not its children, which are relative to it) by `by`,
    /// saturating.
    pub fn translate_mut(&mut self, by: Point)
        ensures
            final(self).id == old(self).id,
            final(self).children@ == old(self).children@,
            final(self).retained == old(self).retained,
            final(self).outer == (Rect { top_left: sat_translate(old(self).outer.top_left, by), size: old(self).outer.size }),
            final(self).inner == (Rect { top_left: sat_translate(old(self).inner.top_left, by), size: old(self).inner.size }),
    {
        self.outer = Rect::new(
            Point::new(add_i32_sat(self.outer.top_left.x, by.x), add_i32_sat(self.outer.top_left.y, by.y)),
            self.outer.size,
        );
        self.inner = Rect::new(
            Point::new(add_i32_sat(self.inner.top_left.x, by.x), add_i32_sat(self.inner.top_left.y, by.y)),
            self.inner.size,
        );
    }

    /// Moves the node within `free_space` as the alignments say.
    pub fn align_mut(&mut self, horizontal: Align, vertical: Align, free_space: Size<u32>)
        ensures
            final(self).id == old(self).id,
            final(self).children@ == old(self).children@,
            final(self).retained == old(self).retained,
            final(self).outer == (Rect {
                top_left: sat_translate(
                    old(self).outer.top_left,
                    Point { x: align_offset(horizontal, free_space.width), y: align_offset(vertical, free_space.height) },
                ),
                size: old(self).outer.size,
            }),
            final(self).inner == (Rect {
                top_left: sat_translate(
                    old(self).inner.top_left,
                    Point { x: align_offset(horizontal, free_space.width), y: align_offset(vertical, free_space.height) },
                ),
                size: old(self).inner.size,
            }),
    {
        let x = match horizontal {
            Align::Start => 0,
            Align::Center => to_coord(free_space.width) / 2,
            Align::End => to_coord(free_space.width),
        };
        let y = match vertical {
            Align::Start => 0,
            Align::Center => to_coord(free_space.height) / 2,
            Align::End => to_coord(free_space.height),
        };
        self.translate_mut(Point::new(x, y));
    }

    /// The node aligned within `parent_size`.
    pub fn aligned(self, horizontal: Align, vertical: Align, parent_size: Size<u32>) -> (r: Self)
        ensures
            r.id == self.id,
            r.children@ == self.children@,
            r.retained == self.retained,
            r.outer == (Rect {
                top_left: sat_translate(
                    self.outer.top_left,
                    Point { x: align_offset(horizontal, parent_size.width), y: align_offset(vertical, parent_size.height) },
                ),
                size: self.outer.size,
            }),
            r.inner == (Rect {
                top_left: sat_translate(
                    self.inner.top_left,
                    Point { x: align_offset(horizontal, parent_size.width), y: align_offset(vertical, parent_size.height) },
                ),
                size: self.inner.size,
            }),
    {
        let mut s = self;
        s.align_mut(horizontal, vertical, parent_size);
        s
    }
}

} // verus!

verus! {

/// `max(a, b)`.
pub open spec fn max_u32(a: u32, b: u32) -> u32 {
    if a >= b { a } else { b }
}

/// The smallest size of the node `id`: content's own size, a container's
/// content plus its padding and border, a flex's children one after another
/// along its axis (saturating) and side by side across it. A transparent
/// node stands for its single effective child; a missing, hidden or empty
/// node needs nothing.
pub open spec fn spec_min_size(t: LayoutArena, id: ElId) -> Size<u32>
    decreases t.rank(id as int), 1nat, 0nat,
{
    let e = spec_effective_children(t, id);
    let single = if e.len() == 1 && t.below(id, e[0]) {
        spec_min_size(t, e[0])
    } else {
        Size { width: 0, height: 0 }
    };
    if t.transparent(id as int) {
        single
    } else {
        match t.data(id as int) {
            None => Size { width: 0, height: 0 },
            Some(d) => if !d.shown {
                Size { width: 0, height: 0 }
            } else {
                match d.kind {
                    LayoutKind::Zero | LayoutKind::Edge => Size { width: 0, height: 0 },
                    LayoutKind::Content(c) => c.spec_min_size(),
                    LayoutKind::Container(c) => single.spec_add(c.block_model.spec_full_padding().spec_size()),
                    LayoutKind::Flex(f) => spec_flex_min(t, id, f.axis, e),
                    LayoutKind::Scrollable(_) => single,
                }
            },
        }
    }
}

/// The smallest size of a flex along `axis` with the children `kids`.
pub open spec fn spec_flex_min(t: LayoutArena, id: ElId, axis: Axis, kids: Seq<ElId>) -> Size<u32>
    decreases t.rank(id as int), 0nat, kids.len(),
{
    if kids.len() == 0 {
        Size { width: 0, height: 0 }
    } else {
        let acc = spec_flex_min(t, id, axis, kids.drop_last());
        let last = kids.last();
        let m = if t.below(id, last) {
            spec_min_size(t, last)
        } else {
            Size { width: 0, height: 0 }
        };
        flex_min_step(axis, acc, m)
    }
}

/// Adds a child's smallest size to a flex's: along the axis (saturating) and
/// the larger one across it.
pub open spec fn flex_min_step(axis: Axis, acc: Size<u32>, m: Size<u32>) -> Size<u32> {
    canon_size(
        axis,
        sat_add(smain(&acc, axis), smain(&m, axis)),
        max_u32(scross(&acc, axis), scross(&m, axis)),
    )
}

fn max_of(a: u32, b: u32) -> (r: u32)
    ensures
        r == max_u32(a, b),
{
    if a >= b {
        a
    } else {
        b
    }
}

/// The smallest size of the node `id` (see [`spec_min_size`]).
pub fn min_size(tree: &LayoutArena, id: ElId) -> (r: Size<u32>)
    requires
        tree.wf(),
    ensures
        r == spec_min_size(*tree, id),
    decreases tree.rank(id as int), 1nat,
{
    proof {
        lemma_effective_children(*tree, id);
        reveal_with_fuel(laid_out_in, 1);
    }
    if tree.is_transparent(id) {
        return match effective_single_child(tree, id) {
            Some(c) => min_size(tree, c),
            None => Size::zero(),
        };
    }
    match tree.layout(id) {
        None => Size::zero(),
        Some(d) => {
            if !d.is_shown() {
                return Size::zero();
            }
            match d.kind {
                LayoutKind::Zero | LayoutKind::Edge => Size::zero(),
                LayoutKind::Content(c) => c.min_size(),
                LayoutKind::Container(c) => {
                    let single = match effective_single_child(tree, id) {
                        Some(ch) => min_size(tree, ch),
                        None => Size::zero(),
                    };
                    single + c.block_model.full_padding().size()
                },
                LayoutKind::Flex(f) => flex_min_size(tree, id, f.axis),
                LayoutKind::Scrollable(_) => match effective_single_child(tree, id) {
                    Some(ch) => min_size(tree, ch),
                    None => Size::zero(),
                },
            }
        },
    }
}

fn flex_min_size(tree: &LayoutArena, id: ElId, axis: Axis) -> (r: Size<u32>)
    requires
        tree.wf(),
    ensures
        r == spec_flex_min(*tree, id, axis, spec_effective_children(*tree, id)),
    decreases tree.rank(id as int), 0nat,
{
    let kids = effective_children(tree, id);
    proof {
        lemma_effective_children(*tree, id);
    }
    let mut acc = Size::zero();
    let mut i: usize = 0;
    while i < kids.len()
        invariant
            tree.wf(),
            kids@ == spec_effective_children(*tree, id),
            forall|k: int| 0 <= k < kids@.len() ==> tree.below(id, #[trigger] kids@[k]),
            i <= kids@.len(),
            acc == spec_flex_min(*tree, id, axis, kids@.take(i as int)),
        decreases kids@.len() - i,
    {
        assert(kids@.take(i + 1).drop_last() == kids@.take(i as int));
        assert(kids@.take(i + 1).last() == kids@[i as int]);
        let m = min_size(tree, kids[i]);
        let main = acc.main(axis).saturating_add(m.main(axis));
        let cross = max_of(acc.cross(axis), m.cross(axis));
        acc = axis.canon(main, cross);
        i = i + 1;
    }
    assert(kids@.take(kids@.len() as int) == kids@);
    acc
}

} // verus!

verus! {

/// The identity a node is laid out under: a transparent node is laid out as
/// its single effective child.
pub open spec fn spec_layout_id(t: LayoutArena, id: ElId) -> ElId {
    if t.transparent(id as int) && spec_effective_children(t, id).len() == 1 {
        spec_effective_children(t, id)[0]
    } else {
        id
    }
}

/// `m` is a layout of the tree node `id`: it carries `id`, and its children
/// are layouts of `id`'s effective children, one each and in order. A
/// container or scrollable without exactly one effective child holds one
/// empty placeholder; missing, hidden and leaf nodes have no children.
pub open spec fn corresponds(t: LayoutArena, m: LayoutModel, id: ElId) -> bool
    decreases m,
{
    let e = spec_effective_children(t, id);
    &&& m.id == id
    &&& if t.transparent(id as int) {
        m.children@.len() == 0
    } else {
        match t.data(id as int) {
            Some(d) => if !d.shown {
                m.children@.len() == 0
            } else {
                match d.kind {
                    LayoutKind::Container(_) | LayoutKind::Scrollable(_) => {
                        &&& m.children@.len() == 1
                        &&& if e.len() == 1 {
                            corresponds(t, m.children@[0], e[0])
                        } else {
                            m.children@[0].id == 0 && m.children@[0].children@.len() == 0
                        }
                    },
                    LayoutKind::Flex(_) => {
                        &&& m.children@.len() == e.len()
                        &&& forall|i: int| 0 <= i < e.len() ==> corresponds(t, #[trigger] m.children@[i], e[i])
                    },
                    _ => m.children@.len() == 0,
                }
            },
            None => m.children@.len() == 0,
        }
    }
}

/// The lengths of a node inside a parent of lengths `parent`.
pub open spec fn in_parent_size(s: Size<Length>, parent: Size<Length>) -> Size<Length> {
    Size { width: s.width.spec_in_parent(parent.width), height: s.height.spec_in_parent(parent.height) }
}

/// The fixed lengths of `s`, and `fixed` where it is not fixed.
pub open spec fn max_fixed_size(s: Size<Length>, fixed: Size<u32>) -> Size<u32> {
    Size { width: s.width.spec_max_fixed(fixed.width), height: s.height.spec_max_fixed(fixed.height) }
}

/// The layout of a node that is laid out on its own: a node with a layout
/// that is shown and not transparent.
pub open spec fn laid_out(t: LayoutArena, id: ElId) -> Option<LayoutData> {
    if !t.transparent(id as int) && t.data(id as int) is Some && t.data(id as int)->Some_0.shown {
        t.data(id as int)
    } else {
        None
    }
}

/// The origin.
pub open spec fn origin() -> Point {
    Point { x: 0, y: 0 }
}

/// `m` is the empty layout of the node `id`.
pub open spec fn zero_model(m: LayoutModel, id: ElId) -> bool {
    &&& m.id == id
    &&& m.outer == Rect::zero_spec()
    &&& m.inner == m.outer
    &&& m.children@.len() == 0
    &&& m.retained is None
}

/// `m` is `c` moved by `a` and then by `b` (saturating): the same identity,
/// children and retained inputs.
pub open spec fn moved_model(c: LayoutModel, m: LayoutModel, a: Point, b: Point) -> bool {
    &&& m.id == c.id
    &&& m.children@ == c.children@
    &&& m.retained == c.retained
    &&& m.outer == moved_rect(moved_rect(c.outer, a), b)
    &&& m.inner == moved_rect(moved_rect(c.inner, a), b)
}

/// `r` is a layout of the node `id` in `parent_limits` inside a parent of
/// lengths `parent_size`, each node of it laid out in the limits its parent
/// gives it. A transparent node is laid out as its single effective child;
/// a missing or hidden one, and a transparent one without a single child,
/// is empty.
#[verifier::opaque]
pub open spec fn laid_out_in(t: LayoutArena, id: ElId, parent_limits: Limits, parent_size: Size<Length>, r: LayoutModel) -> bool
    decreases t.rank(id as int), 1nat,
{
    let e = spec_effective_children(t, id);
    let single = e.len() == 1 && t.below(id, e[0]);
    if t.transparent(id as int) {
        if single {
            laid_out_in(t, e[0], parent_limits, parent_size, r)
        } else {
            zero_model(r, id)
        }
    } else {
        match laid_out(t, id) {
            None => zero_model(r, id),
            Some(d) => {
                let size = in_parent_size(d.size, parent_size);
                &&& r.id == id
                &&& r.outer.top_left == origin()
                &&& r.retained == Some(
                    Retained { parent_limits, parent_size, min_size: max_fixed_size(d.size, spec_min_size(t, id)) },
                )
                &&& match d.kind {
                    LayoutKind::Zero => r.outer == Rect::zero_spec() && r.inner == r.outer && r.children@.len() == 0,
                    LayoutKind::Edge => {
                        &&& r.outer.size == parent_limits.spec_resolve_size(size, Size::<u32>::zero_spec(), None)
                        &&& r.inner == r.outer
                        &&& r.children@.len() == 0
                    },
                    LayoutKind::Content(c) => {
                        let l = parent_limits.spec_self_limits(size);
                        &&& r.outer.size.width == l.spec_resolve_axis(
                            Axis::X,
                            size,
                            Size { width: c.spec_content_sizing().max_content, height: 0 },
                        )
                        &&& r.outer.size.height == l.spec_resolve_axis(
                            Axis::Y,
                            size,
                            Size { width: 0, height: c.spec_min_size().height },
                        )
                        &&& r.inner == r.outer
                        &&& r.children@.len() == 0
                    },
                    LayoutKind::Container(c) => {
                        let pad = c.block_model.padding;
                        let child = r.children@[0];
                        let resolved = parent_limits.spec_resolve_size(size, child.outer.size, Some(pad));
                        let content_limits = parent_limits.spec_child_limits(size).spec_shrink(pad.spec_size());
                        &&& r.children@.len() == 1
                        &&& r.inner.size == resolved
                        &&& r.outer.size == resolved.spec_add(pad.spec_size())
                        &&& r.inner.top_left == sat_translate(origin(), Point { x: coord(pad.left), y: coord(pad.top) })
                        &&& exists|c0: LayoutModel|
                            {
                                &&& (if single {
                                    laid_out_in(t, e[0], content_limits, size, c0)
                                } else {
                                    zero_model(c0, 0)
                                })
                                &&& #[trigger] moved_model(
                                    c0,
                                    child,
                                    Point {
                                        x: align_offset(c.horizontal_align, resolved.spec_sub(child.outer.size).width),
                                        y: align_offset(c.vertical_align, resolved.spec_sub(child.outer.size).height),
                                    },
                                    origin(),
                                )
                            }
                    },
                    LayoutKind::Scrollable(_) => {
                        let child = r.children@[0];
                        &&& r.children@.len() == 1
                        &&& r.inner.size == parent_limits.spec_resolve_size(size, child.outer.size, None)
                        &&& r.inner == r.outer
                        &&& if single {
                            laid_out_in(t, e[0], parent_limits.spec_child_limits(size), size, child)
                        } else {
                            zero_model(child, 0)
                        }
                    },
                    LayoutKind::Flex(f) => {
                        let pad = f.block_model.spec_full_padding();
                        &&& r.outer.size == r.inner.size.spec_add(pad.spec_size())
                        &&& r.inner.top_left == sat_translate(origin(), Point { x: coord(pad.left), y: coord(pad.top) })
                        &&& flex_laid_out(t, id, parent_limits, f, size, r)
                        &&& flex_children_laid_out(t, id, parent_limits, f, size, r)
                    },
                }
            },
        }
    }
}

/// The children of the flex `id` laid out as `r`: a child the flex does not
/// lay out is empty; a fixed one is laid out in `fixed_item_limits`, a
/// fluid one in `fluid_item_limits`; each is then moved to its place as
/// `flex_laid_out` says.
pub open spec fn flex_children_laid_out(
    t: LayoutArena,
    id: ElId,
    parent_limits: Limits,
    f: FlexLayout,
    size: Size<Length>,
    r: LayoutModel,
) -> bool
    decreases t.rank(id as int), 0nat,
{
    let e = spec_effective_children(t, id);
    let s = shown_models(t, e, r.children@);
    let ids = shown_of(t, e);
    let axis = f.axis;
    let gap_main = smain(&f.gap, axis);
    let gap_cross = scross(&f.gap, axis);
    let lens = main_lens(s, axis);
    let measures = line_measures(t, ids, s, axis);
    let limits = parent_limits.spec_self_limits(size).spec_shrink(f.block_model.spec_full_padding().spec_size());
    let max_main = smain(&limits.max, axis);
    let max_cross = scross(&limits.max, axis);
    let st = flex_sizing(t, ids, lens, measures, f, max_main, max_cross, s.len() as int);
    let cfc = sat_sub(st.cfc, st.lines_max.last());
    let crosses = Seq::new(st.lines_max.len(), |l: int| line_cross(size, axis, st.lines_max, cfc, max_cross, l));
    let line_of = st.line_of;
    &&& r.children@.len() == e.len()
    &&& forall|k: int| 0 <= k < e.len() && !takes_part(t, e[k]) ==> zero_model(#[trigger] r.children@[k], e[k])
    &&& forall|j: int|
        #![trigger s[j]]
        0 <= j < s.len() && t.below(id, ids[j]) ==> exists|c0: LayoutModel|
            {
                &&& (is_fluid(t, ids[j], axis) ==> laid_out_in(
                    t,
                    ids[j],
                    fluid_item_limits(t, ids, st, crosses, axis, j),
                    size,
                    c0,
                ))
                &&& (!is_fluid(t, ids[j], axis) ==> laid_out_in(
                    t,
                    ids[j],
                    fixed_item_limits(t, ids, lens, measures, f, max_main, max_cross, j),
                    size,
                    c0,
                ))
                &&& #[trigger] moved_model(
                    c0,
                    s[j],
                    canon_point(
                        axis,
                        coord(item_start(line_of, lens, gap_main, j)),
                        coord(item_cross_start(line_of, crosses, gap_cross, j)),
                    ),
                    align_shift(
                        f.horizontal_align,
                        f.vertical_align,
                        canon_size(axis, smain(&r.inner.size, axis), crosses[line_of[j]]).spec_sub(
                            canon_size(axis, line_end_from(line_of, lens, gap_main, j), scross(&s[j].outer.size, axis)),
                        ),
                    ),
                )
            }
}

/// A node has a single layout in given limits: two layouts of it are
/// identical, node by node. Laying a node out twice in the same inputs gives
/// the same geometry.
pub proof fn lemma_laid_out_unique(t: LayoutArena, id: ElId, l: Limits, p: Size<Length>, a: LayoutModel, b: LayoutModel)
    requires
        t.wf(),
        laid_out_in(t, id, l, p, a),
        laid_out_in(t, id, l, p, b),
    ensures
        identical(a, b),
    decreases t.rank(id as int), 2nat, 0int,
{
    reveal(laid_out_in);
    let e = spec_effective_children(t, id);
    lemma_effective_children(t, id);
    let single = e.len() == 1 && t.below(id, e[0]);
    if t.transparent(id as int) {
        if single {
            lemma_laid_out_unique(t, e[0], l, p, a, b);
        } else {
            lemma_zero_identical(a, b, id);
        }
    } else {
        match laid_out(t, id) {
            None => {
                lemma_zero_identical(a, b, id);
            },
            Some(d) => {
                let size = in_parent_size(d.size, p);
                match d.kind {
                    LayoutKind::Container(c) => {
                        let pad = c.block_model.padding;
                        let ca = a.children@[0];
                        let cb = b.children@[0];
                        let content_limits = l.spec_child_limits(size).spec_shrink(pad.spec_size());
                        let ra = l.spec_resolve_size(size, ca.outer.size, Some(pad));
                        let rb = l.spec_resolve_size(size, cb.outer.size, Some(pad));
                        let c0a = choose|c0: LayoutModel|
                            {
                                &&& (if single {
                                    laid_out_in(t, e[0], content_limits, size, c0)
                                } else {
                                    zero_model(c0, 0)
                                })
                                &&& #[trigger] moved_model(
                                    c0,
                                    ca,
                                    Point {
                                        x: align_offset(c.horizontal_align, ra.spec_sub(ca.outer.size).width),
                                        y: align_offset(c.vertical_align, ra.spec_sub(ca.outer.size).height),
                                    },
                                    origin(),
                                )
                            };
                        let c0b = choose|c0: LayoutModel|
                            {
                                &&& (if single {
                                    laid_out_in(t, e[0], content_limits, size, c0)
                                } else {
                                    zero_model(c0, 0)
                                })
                                &&& #[trigger] moved_model(
                                    c0,
                                    cb,
                                    Point {
                                        x: align_offset(c.horizontal_align, rb.spec_sub(cb.outer.size).width),
                                        y: align_offset(c.vertical_align, rb.spec_sub(cb.outer.size).height),
                                    },
                                    origin(),
                                )
                            };
                        if single {
                            lemma_laid_out_unique(t, e[0], content_limits, size, c0a, c0b);
                        } else {
                            lemma_zero_identical(c0a, c0b, 0);
                        }
                        assert(ca.outer.size == cb.outer.size);
                        lemma_moved_identical(
                            c0a,
                            c0b,
                            ca,
                            cb,
                            Point {
                                x: align_offset(c.horizontal_align, ra.spec_sub(ca.outer.size).width),
                                y: align_offset(c.vertical_align, ra.spec_sub(ca.outer.size).height),
                            },
                            origin(),
                        );
                        assert(identical(a.children@[0], b.children@[0]));
                    },
                    LayoutKind::Scrollable(_) => {
                        if single {
                            lemma_laid_out_unique(t, e[0], l.spec_child_limits(size), size, a.children@[0], b.children@[0]);
                        } else {
                            lemma_zero_identical(a.children@[0], b.children@[0], 0);
                        }
                        assert(identical(a.children@[0], b.children@[0]));
                    },
                    LayoutKind::Flex(f) => {
                        lemma_flex_unique(t, id, l, f, size, a, b);
                    },
                    _ => {},
                }
            },
        }
    }
}

/// A transparent node with a single effective child is laid out as that
/// child: any layout of the one is identical to any layout of the other in
/// the same inputs.
pub proof fn lemma_transparent_is_its_child(t: LayoutArena, id: ElId, l: Limits, p: Size<Length>, a: LayoutModel, b: LayoutModel)
    requires
        t.wf(),
        t.transparent(id as int),
        spec_effective_children(t, id).len() == 1,
        laid_out_in(t, id, l, p, a),
        laid_out_in(t, spec_effective_children(t, id)[0], l, p, b),
    ensures
        identical(a, b),
{
    reveal(laid_out_in);
    lemma_effective_children(t, id);
    lemma_laid_out_unique(t, spec_effective_children(t, id)[0], l, p, a, b);
}

/// A flex's border and padding wrap its content. Laid out on its own, a
/// flex's inner box starts in from its outer top-left corner by its left
/// padding plus its border width, and by its top padding plus its border
/// width; its outer box is larger than its inner box by the padding and the
/// border of both sides (every sum saturating).
pub proof fn lemma_flex_border_wraps_content(
    t: LayoutArena,
    id: ElId,
    l: Limits,
    p: Size<Length>,
    f: FlexLayout,
    r: LayoutModel,
)
    requires
        laid_out_in(t, id, l, p, r),
        !t.transparent(id as int),
        laid_out(t, id) matches Some(d) && d.kind == LayoutKind::Flex(f),
    ensures
        r.outer.top_left == origin(),
        r.inner.top_left.x == vstd::math::min(
            vstd::math::min(f.block_model.padding.left + f.block_model.border_width, u32::MAX as int),
            i32::MAX as int,
        ),
        r.inner.top_left.y == vstd::math::min(
            vstd::math::min(f.block_model.padding.top + f.block_model.border_width, u32::MAX as int),
            i32::MAX as int,
        ),
        r.outer.size.width == vstd::math::min(
            r.inner.size.width + vstd::math::min(
                vstd::math::min(f.block_model.padding.left + f.block_model.border_width, u32::MAX as int)
                    + vstd::math::min(f.block_model.padding.right + f.block_model.border_width, u32::MAX as int),
                u32::MAX as int,
            ),
            u32::MAX as int,
        ),
        r.outer.size.height == vstd::math::min(
            r.inner.size.height + vstd::math::min(
                vstd::math::min(f.block_model.padding.top + f.block_model.border_width, u32::MAX as int)
                    + vstd::math::min(f.block_model.padding.bottom + f.block_model.border_width, u32::MAX as int),
                u32::MAX as int,
            ),
            u32::MAX as int,
        ),
{
    reveal(laid_out_in);
}

/// A node laid out on its own carries its identity and the limits and
/// lengths it was laid out in.
pub proof fn lemma_laid_out_keeps_inputs(t: LayoutArena, id: ElId, l: Limits, p: Size<Length>, r: LayoutModel)
    requires
        laid_out_in(t, id, l, p, r),
        !t.transparent(id as int),
        laid_out(t, id) is Some,
    ensures
        r.id == id,
        r.retained matches Some(kept) && kept.parent_limits == l && kept.parent_size == p,
{
    reveal_with_fuel(laid_out_in, 1);
}

/// A layout is laid out at the origin.
pub proof fn lemma_laid_out_at_origin(t: LayoutArena, id: ElId, l: Limits, p: Size<Length>, r: LayoutModel)
    requires
        laid_out_in(t, id, l, p, r),
    ensures
        r.outer.top_left == origin(),
    decreases t.rank(id as int),
{
    reveal_with_fuel(laid_out_in, 1);
    let e = spec_effective_children(t, id);
    if t.transparent(id as int) && e.len() == 1 && t.below(id, e[0]) {
        lemma_laid_out_at_origin(t, e[0], l, p, r);
    }
}

/// Lays out the node `id` in `parent_limits` inside a parent of lengths
/// `parent_size`.
///
/// The node is laid out at the origin (its parent places it). A transparent
/// node is laid out as its single effective child; a missing or hidden node
/// is empty.
#[verifier::rlimit(100)]
#[verifier::spinoff_prover]
pub fn model_layout(tree: &LayoutArena, id: ElId, parent_limits: Limits, parent_size: Size<Length>) -> (r: LayoutModel)
    requires
        tree.wf(),
    ensures
        corresponds(*tree, r, spec_layout_id(*tree, id)),
        r.outer.top_left == origin(),
        laid_out_in(*tree, id, parent_limits, parent_size, r),
    decreases tree.rank(id as int), 1nat,
{
    if tree.is_transparent(id) {
        let r = match effective_single_child(tree, id) {
            Some(child) => {
                proof {
                    lemma_effective_children(*tree, id);
                }
                assert(tree.below(id, spec_effective_children(*tree, id)[0]));
                model_layout(tree, child, parent_limits, parent_size)
            },
            None => LayoutModel::zero().with_id(id),
        };
        assert(laid_out_in(*tree, id, parent_limits, parent_size, r)) by {
            reveal_with_fuel(laid_out_in, 1);
        }
        return r;
    }
    let layout = match tree.layout(id) {
        Some(l) => *l,
        None => {
            assert(tree.data(id as int) is None);
            assert(laid_out(*tree, id) is None);
            let r = LayoutModel::zero().with_id(id);
            assert(laid_out_in(*tree, id, parent_limits, parent_size, r)) by {
                reveal_with_fuel(laid_out_in, 1);
            }
            return r;
        },
    };
    if !layout.is_shown() {
        let r = LayoutModel::zero().with_id(id);
        assert(laid_out_in(*tree, id, parent_limits, parent_size, r)) by {
            reveal_with_fuel(laid_out_in, 1);
        }
        return r;
    }
    let size = layout.size.in_parent(parent_size);
    let min = min_size(tree, id);
    let retained = Retained { parent_limits, parent_size, min_size: layout.size.max_fixed(min) };
    assert(laid_out(*tree, id) == Some(layout));
    assert(retained == Retained {
        parent_limits,
        parent_size,
        min_size: max_fixed_size(layout.size, spec_min_size(*tree, id)),
    });
    match layout.kind {
        LayoutKind::Zero => {
            let r = LayoutModel::zero().with_id(id).with_retained(retained);
            assert(r.children@.len() == 0);
            assert(laid_out_in(*tree, id, parent_limits, parent_size, r)) by {
                reveal_with_fuel(laid_out_in, 1);
            }
            r
        },
        LayoutKind::Edge => {
            let r = LayoutModel::new(parent_limits.resolve_size(size, Size::zero(), None), Vec::new()).with_id(
                id,
            ).with_retained(retained);
            assert(laid_out_in(*tree, id, parent_limits, parent_size, r)) by {
                reveal_with_fuel(laid_out_in, 1);
            }
            r
        },
        LayoutKind::Content(content) => {
            let sizing = content.content_sizing();
            let height = content.min_size().height;
            let l = parent_limits.self_limits(size);
            let width = l.resolve_axis(Axis::X, size, Size::new(sizing.max_content, 0));
            let h = l.resolve_axis(Axis::Y, size, Size::new(0, height));
            let r = LayoutModel::new(Size::new(width, h), Vec::new()).with_id(id).with_retained(retained);
            assert(laid_out_in(*tree, id, parent_limits, parent_size, r)) by {
                reveal_with_fuel(laid_out_in, 1);
            }
            r
        },
        LayoutKind::Container(container) => {
            let full_padding = container.block_model.padding;
            let content_limits = parent_limits.child_limits(size).shrink(full_padding.size());
            let content_layout = match effective_single_child(tree, id) {
                Some(content_id) => {
                    proof {
                        lemma_effective_children(*tree, id);
                    }
                    assert(tree.below(id, spec_effective_children(*tree, id)[0]));
                    model_layout(tree, content_id, content_limits, size)
                },
                None => LayoutModel::zero(),
            };
            let content_size = content_layout.outer_size();
            let real_size = parent_limits.resolve_size(size, content_size, Some(full_padding));
            let ghost before = content_layout;
            let content_layout = content_layout.aligned(
                container.horizontal_align,
                container.vertical_align,
                real_size - content_size,
            );
            let ghost off = Point {
                x: align_offset(container.horizontal_align, real_size.spec_sub(content_size).width),
                y: align_offset(container.vertical_align, real_size.spec_sub(content_size).height),
            };
            proof {
                let e = spec_effective_children(*tree, id);
                if e.len() == 1 {
                    lemma_corresponds_moved(*tree, before, content_layout, e[0]);
                }
                assert(moved_model(before, content_layout, off, origin()));
            }
            let mut children: Vec<LayoutModel> = Vec::new();
            children.push(content_layout);
            let r = LayoutModel::new(real_size, children).with_full_padding(full_padding).with_id(id).with_retained(
                retained,
            );
            assert(laid_out_in(*tree, id, parent_limits, parent_size, r)) by {
                let e = spec_effective_children(*tree, id);
                let single = e.len() == 1 && tree.below(id, e[0]);
                assert(r.children@[0] == content_layout);
                assert(if single {
                    laid_out_in(*tree, e[0], content_limits, size, before)
                } else {
                    zero_model(before, 0)
                });
                assert(moved_model(before, r.children@[0], off, origin()));
                assert(size == in_parent_size(layout.size, parent_size));
                assert(content_limits == parent_limits.spec_child_limits(size).spec_shrink(full_padding.spec_size()));
                assert(real_size == parent_limits.spec_resolve_size(size, r.children@[0].outer.size, Some(full_padding)));
                assert(exists|c0: LayoutModel|
                    {
                        &&& (if single {
                            laid_out_in(*tree, e[0], content_limits, size, c0)
                        } else {
                            zero_model(c0, 0)
                        })
                        &&& #[trigger] moved_model(c0, r.children@[0], off, origin())
                    });
                reveal_with_fuel(laid_out_in, 1);
            }
            r
        },
        LayoutKind::Scrollable(_) => {
            let content_limits = parent_limits.child_limits(size);
            let content_layout = match effective_single_child(tree, id) {
                Some(content_id) => {
                    proof {
                        lemma_effective_children(*tree, id);
                    }
                    assert(tree.below(id, spec_effective_children(*tree, id)[0]));
                    model_layout(tree, content_id, content_limits, size)
                },
                None => LayoutModel::zero(),
            };
            let real_size = parent_limits.resolve_size(size, content_layout.outer_size(), None);
            let mut children: Vec<LayoutModel> = Vec::new();
            children.push(content_layout);
            let r = LayoutModel::new(real_size, children).with_id(id).with_retained(retained);
            assert(laid_out_in(*tree, id, parent_limits, parent_size, r)) by {
                reveal_with_fuel(laid_out_in, 1);
            }
            r
        },
        LayoutKind::Flex(flex_layout) => {
            let fm = model_flex(tree, id, parent_limits, &flex_layout, size);
            let r = fm.with_id(id).with_retained(retained);
            proof {
                assert(size == in_parent_size(layout.size, parent_size));
                reveal_with_fuel(flex_children_laid_out, 1);
                assert(flex_children_laid_out(*tree, id, parent_limits, flex_layout, size, r));
            }
            assert(laid_out_in(*tree, id, parent_limits, parent_size, r)) by {
                reveal_with_fuel(laid_out_in, 1);
            }
            r
        },
    }
}

} // verus!

verus! {

/// Whether a model is a layout of a node depends on its identity and its
/// children only, not on where it is.
pub proof fn lemma_corresponds_moved(t: LayoutArena, a: LayoutModel, b: LayoutModel, id: ElId)
    requires
        corresponds(t, a, id),
        a.id == b.id,
        a.children@ == b.children@,
    ensures
        corresponds(t, b, id),
{
    reveal_with_fuel(corresponds, 1);
}

} // verus!

verus! {

/// Two models are equal when their geometry is: identities, rectangles and
/// children, not the inputs they were laid out with.
impl PartialEq for LayoutModel {
    fn eq(&self, other: &Self) -> (r: bool) {
        self.geometry_eq(other)
    }
}

impl PartialEqSpecImpl for LayoutModel {
    open spec fn obeys_eq_spec() -> bool {
        true
    }

    open spec fn eq_spec(&self, other: &Self) -> bool {
        self.same_geometry(*other)
    }
}

} // verus!

verus! {

/// A laid-out node with its rectangles placed in the viewport.
pub struct LayoutModelNode<'a> {
    pub outer: Rect,
    pub inner: Rect,
    pub model: &'a LayoutModel,
}

/// `r` moved by `by`, saturating.
pub open spec fn moved_rect(r: Rect, by: Point) -> Rect {
    Rect { top_left: sat_translate(r.top_left, by), size: r.size }
}

pub(crate) fn move_rect(r: Rect, by: Point) -> (m: Rect)
    ensures
        m == moved_rect(r, by),
{
    Rect::new(Point::new(add_i32_sat(r.top_left.x, by.x), add_i32_sat(r.top_left.y, by.y)), r.size)
}

impl<'a> LayoutModelNode<'a> {
    /// The model the node places.
    pub open spec fn model(self) -> LayoutModel {
        *self.model
    }

    /// The identity the node was laid out for.
    pub fn id(&self) -> (r: ElId)
        ensures
            r == self.model().id,
    {
        self.model.id
    }

    /// The node moved by `by` (saturating).
    pub fn translate(&self, by: Point) -> (r: Self)
        ensures
            r.outer == moved_rect(self.outer, by),
            r.inner == moved_rect(self.inner, by),
            r.model() == self.model(),
    {
        LayoutModelNode { outer: move_rect(self.outer, by), inner: move_rect(self.inner, by), model: self.model }
    }

    /// The children, placed inside this node's inner rectangle.
    pub fn children(&self) -> (r: Vec<LayoutModelNode<'a>>)
        ensures
            r@.len() == self.model().children@.len(),
            forall|i: int|
                0 <= i < r@.len() ==> (#[trigger] r@[i]).model() == self.model().children@[i] && r@[i].outer
                    == moved_rect(self.model().children@[i].outer, self.inner.top_left) && r@[i].inner
                    == moved_rect(self.model().children@[i].inner, self.inner.top_left),
    {
        let kids = &self.model.children;
        let mut out: Vec<LayoutModelNode<'a>> = Vec::new();
        let mut i: usize = 0;
        while i < kids.len()
            invariant
                kids@ == self.model().children@,
                i <= kids@.len(),
                out@.len() == i,
                forall|k: int|
                    0 <= k < i ==> (#[trigger] out@[k]).model() == kids@[k] && out@[k].outer == moved_rect(
                        kids@[k].outer,
                        self.inner.top_left,
                    ) && out@[k].inner == moved_rect(kids@[k].inner, self.inner.top_left),
            decreases kids@.len() - i,
        {
            out.push(kids[i].node(self.inner));
            i = i + 1;
        }
        out
    }

    pub fn children_len(&self) -> (r: usize)
        ensures
            r == self.model().children@.len(),
    {
        self.model.children.len()
    }

    /// The innermost node under `point`: the first child, in order, with a
    /// node under `point`, and otherwise this node if its outer rectangle
    /// holds `point`.
    pub fn dev_hover(&self, point: Point) -> (r: Option<DevHoveredLayout>)
        ensures
            r == hovered(self.model(), self.outer, self.inner, point),
        decreases self.model(),
    {
        let kids = self.children();
        let mut i: usize = 0;
        while i < kids.len()
            invariant
                kids@.len() == self.model().children@.len(),
                forall|k: int|
                    0 <= k < kids@.len() ==> (#[trigger] kids@[k]).model() == self.model().children@[k] && kids@[k].outer
                        == moved_rect(self.model().children@[k].outer, self.inner.top_left) && kids@[k].inner
                        == moved_rect(self.model().children@[k].inner, self.inner.top_left),
                i <= kids@.len(),
                hovered_from(self.model(), self.inner, point, 0) == hovered_from(
                    self.model(),
                    self.inner,
                    point,
                    i as int,
                ),
            decreases kids@.len() - i,
        {
            let kid = &kids[i];
            match kid.dev_hover(point) {
                Some(h) => {
                    return Some(h);
                },
                None => {},
            }
            i = i + 1;
        }
        if self.outer.contains(point) {
            Some(DevHoveredLayout { area: self.outer, children_count: self.model.children.len() })
        } else {
            None
        }
    }
}

/// The innermost node under `p` of the model `m` placed with the outer
/// rectangle `outer` and the inner rectangle `inner`.
pub open spec fn hovered(m: LayoutModel, outer: Rect, inner: Rect, p: Point) -> Option<DevHoveredLayout>
    decreases m, m.children@.len() + 1,
{
    match hovered_from(m, inner, p, 0) {
        Some(h) => Some(h),
        None => if outer.spec_contains(p) {
            Some(DevHoveredLayout { area: outer, children_count: m.children@.len() as usize })
        } else {
            None
        },
    }
}

/// The innermost node under `p` of the first child, from the `k`th on, of
/// `m` (whose inner rectangle is `inner`) with a node under `p`.
pub open spec fn hovered_from(m: LayoutModel, inner: Rect, p: Point, k: int) -> Option<DevHoveredLayout>
    decreases m, m.children@.len() - k,
{
    if k < 0 || k >= m.children@.len() {
        None
    } else {
        let c = m.children@[k];
        match hovered(c, moved_rect(c.outer, inner.top_left), moved_rect(c.inner, inner.top_left), p) {
            Some(h) => Some(h),
            None => hovered_from(m, inner, p, k + 1),
        }
    }
}

/// The node of `m` (placed with the rectangles `outer` and `inner`) reached
/// by going down to its child `path[0]`, then to that child's child
/// `path[1]`, and so on: its absolute outer and inner rectangles (a child's
/// rectangles are moved by its parent's absolute inner top-left corner) and
/// its model. `None` for a path that leaves the tree.
pub open spec fn placed_node(m: LayoutModel, outer: Rect, inner: Rect, path: Seq<int>) -> Option<(Rect, Rect, LayoutModel)>
    decreases path.len(),
{
    if path.len() == 0 {
        Some((outer, inner, m))
    } else if 0 <= path[0] < m.children@.len() {
        let c = m.children@[path[0]];
        placed_node(c, moved_rect(c.outer, inner.top_left), moved_rect(c.inner, inner.top_left), path.drop_first())
    } else {
        None
    }
}

/// The node reached by `path` lies under the point `p`.
pub open spec fn node_under(m: LayoutModel, outer: Rect, inner: Rect, path: Seq<int>, p: Point) -> bool {
    placed_node(m, outer, inner, path) matches Some(n) && n.0.spec_contains(p)
}

/// `h` reports the node reached by `path`: a node under `p`, with the
/// node's absolute outer rectangle and number of children, none of whose
/// descendants lies under `p`.
pub open spec fn reports_innermost(m: LayoutModel, outer: Rect, inner: Rect, path: Seq<int>, p: Point, h: DevHoveredLayout) -> bool {
    &&& placed_node(m, outer, inner, path) matches Some(n)
    &&& n.0 == h.area
    &&& n.0.spec_contains(p)
    &&& h.children_count == n.2.children@.len() as usize
    &&& forall|q: Seq<int>| q.len() > 0 ==> !#[trigger] node_under(n.2, n.0, n.1, q, p)
}

/// Going down to child `j` and then along `q` is going along `q` from that
/// child placed in `m`.
proof fn lemma_placed_child(m: LayoutModel, outer: Rect, inner: Rect, j: int, q: Seq<int>)
    requires
        0 <= j < m.children@.len(),
    ensures
        placed_node(m, outer, inner, seq![j] + q) == placed_node(
            m.children@[j],
            moved_rect(m.children@[j].outer, inner.top_left),
            moved_rect(m.children@[j].inner, inner.top_left),
            q,
        ),
{
    assert((seq![j] + q).drop_first() =~= q);
    assert((seq![j] + q)[0] == j);
}

/// Going along a path that is not empty is going along its rest from the
/// child it starts with.
proof fn lemma_placed_first(m: LayoutModel, outer: Rect, inner: Rect, q: Seq<int>, p: Point)
    requires
        q.len() > 0,
        node_under(m, outer, inner, q, p),
    ensures
        0 <= q[0] < m.children@.len(),
        node_under(
            m.children@[q[0]],
            moved_rect(m.children@[q[0]].outer, inner.top_left),
            moved_rect(m.children@[q[0]].inner, inner.top_left),
            q.drop_first(),
            p,
        ),
{
}

/// The node found under a point is the innermost one: `hovered` finds
/// nothing exactly when no node, at its absolute place, lies under `p`; and
/// what it finds is the absolute outer rectangle and the number of children
/// of a node under `p` none of whose descendants lies under `p`.
pub proof fn lemma_hover_finds_the_innermost_node(m: LayoutModel, outer: Rect, inner: Rect, p: Point)
    ensures
        hovered(m, outer, inner, p) is None <==> forall|path: Seq<int>| !#[trigger] node_under(m, outer, inner, path, p),
        hovered(m, outer, inner, p) is Some ==> exists|path: Seq<int>| #[trigger]
            reports_innermost(m, outer, inner, path, p, hovered(m, outer, inner, p).unwrap()),
    decreases m, m.children@.len() + 1,
{
    lemma_hovered_from_innermost(m, inner, p, 0);
    match hovered_from(m, inner, p, 0) {
        Some(h) => {
            let (j, q) = choose|j: int, q: Seq<int>|
                0 <= j < m.children@.len() && #[trigger] reports_innermost(
                    m.children@[j],
                    moved_rect(m.children@[j].outer, inner.top_left),
                    moved_rect(m.children@[j].inner, inner.top_left),
                    q,
                    p,
                    h,
                );
            lemma_placed_child(m, outer, inner, j, q);
            assert(reports_innermost(m, outer, inner, seq![j] + q, p, h));
            assert(node_under(m, outer, inner, seq![j] + q, p));
            assert(hovered(m, outer, inner, p) == Some(h));
        },
        None => {
            assert forall|q: Seq<int>| q.len() > 0 implies !#[trigger] node_under(m, outer, inner, q, p) by {
                if node_under(m, outer, inner, q, p) {
                    lemma_placed_first(m, outer, inner, q, p);
                }
            }
            let e = Seq::<int>::empty();
            if outer.spec_contains(p) {
                let h = DevHoveredLayout { area: outer, children_count: m.children@.len() as usize };
                assert(placed_node(m, outer, inner, e) == Some((outer, inner, m)));
                assert(reports_innermost(m, outer, inner, e, p, h));
                assert(node_under(m, outer, inner, e, p));
                assert(hovered(m, outer, inner, p) == Some(h));
                assert(reports_innermost(m, outer, inner, e, p, hovered(m, outer, inner, p).unwrap()));
            } else {
                assert(hovered(m, outer, inner, p) is None);
                assert forall|path: Seq<int>| !#[trigger] node_under(m, outer, inner, path, p) by {
                    if path.len() == 0 {
                        assert(placed_node(m, outer, inner, path) == Some((outer, inner, m)));
                    }
                }
            }
        },
    }
}

/// `hovered_from` finds nothing exactly when no node below the children of
/// `m` from the `k`th on lies under `p`, and otherwise reports the innermost
/// node under `p` below one of them.
proof fn lemma_hovered_from_innermost(m: LayoutModel, inner: Rect, p: Point, k: int)
    ensures
        hovered_from(m, inner, p, k) is None ==> forall|j: int, q: Seq<int>|
            0 <= k <= j < m.children@.len() ==> !#[trigger] node_under(
                m.children@[j],
                moved_rect(m.children@[j].outer, inner.top_left),
                moved_rect(m.children@[j].inner, inner.top_left),
                q,
                p,
            ),
        hovered_from(m, inner, p, k) matches Some(h) ==> exists|j: int, q: Seq<int>|
            0 <= j < m.children@.len() && #[trigger] reports_innermost(
                m.children@[j],
                moved_rect(m.children@[j].outer, inner.top_left),
                moved_rect(m.children@[j].inner, inner.top_left),
                q,
                p,
                h,
            ),
    decreases m, m.children@.len() - k,
{
    if 0 <= k < m.children@.len() {
        let c = m.children@[k];
        let co = moved_rect(c.outer, inner.top_left);
        let ci = moved_rect(c.inner, inner.top_left);
        lemma_hover_finds_the_innermost_node(c, co, ci, p);
        match hovered(c, co, ci, p) {
            Some(h) => {
                let q = choose|q: Seq<int>| #[trigger] reports_innermost(c, co, ci, q, p, h);
                assert(reports_innermost(m.children@[k], co, ci, q, p, h));
            },
            None => {
                lemma_hovered_from_innermost(m, inner, p, k + 1);
                match hovered_from(m, inner, p, k + 1) {
                    Some(h) => {},
                    None => {
                        assert forall|j: int, q: Seq<int>|
                            0 <= k <= j < m.children@.len() implies !#[trigger] node_under(
                            m.children@[j],
                            moved_rect(m.children@[j].outer, inner.top_left),
                            moved_rect(m.children@[j].inner, inner.top_left),
                            q,
                            p,
                        ) by {
                            if j == k {
                                assert(!node_under(c, co, ci, q, p));
                            }
                        }
                    },
                }
            },
        }
    }
}

impl LayoutModel {
    /// The root node, placed where its own rectangles say.
    pub fn tree_root(&self) -> (r: LayoutModelNode<'_>)
        ensures
            r.outer == self.outer,
            r.inner == self.inner,
            r.model() == *self,
    {
        LayoutModelNode { outer: self.outer, inner: self.inner, model: self }
    }

    /// The node placed inside a parent whose inner rectangle is
    /// `parent_inner`.
    fn node(&self, parent_inner: Rect) -> (r: LayoutModelNode<'_>)
        ensures
            r.outer == moved_rect(self.outer, parent_inner.top_left),
            r.inner == moved_rect(self.inner, parent_inner.top_left),
            r.model() == *self,
    {
        LayoutModelNode {
            outer: move_rect(self.outer, parent_inner.top_left),
            inner: move_rect(self.inner, parent_inner.top_left),
            model: self,
        }
    }
}

} // verus!
