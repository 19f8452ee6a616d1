//! What a relayout changed on screen: the rectangles it damaged and the
//! nodes that must be drawn again.
//!
//! Two layouts of one tree are walked in lockstep, children matched by
//! identity. A node's absolute rectangle is its outer rectangle moved by the
//! absolute inner top-left corner of its parent.
use crate::geometry::{Point, Rect};
use crate::layout::model::{move_rect, moved_rect, sat_translate, LayoutModel};
use crate::layout::tree::ElId;
use vstd::prelude::*;

verus! {

/// `i` is the first position of `kids` holding the identity `id`.
pub open spec fn is_first_with_id(kids: Seq<LayoutModel>, id: ElId, i: int) -> bool {
    &&& 0 <= i < kids.len()
    &&& kids[i].id == id
    &&& forall|j: int| 0 <= j < i ==> (#[trigger] kids[j]).id != id
}

/// Whether one of `kids` has the identity `id`.
pub open spec fn has_id(kids: Seq<LayoutModel>, id: ElId) -> bool {
    exists|i: int| 0 <= i < kids.len() && (#[trigger] kids[i]).id == id
}

/// The first of `kids` with the identity `id`.
pub open spec fn first_with_id(kids: Seq<LayoutModel>, id: ElId) -> Option<LayoutModel> {
    if has_id(kids, id) {
        Some(kids[choose|i: int| is_first_with_id(kids, id, i)])
    } else {
        None
    }
}

/// There is a first position with a given identity as soon as there is one.
pub proof fn lemma_first_with_id(kids: Seq<LayoutModel>, id: ElId, i: int)
    requires
        is_first_with_id(kids, id, i),
    ensures
        has_id(kids, id),
        first_with_id(kids, id) == Some(kids[i]),
{
    assert(kids[i].id == id);
    let k = choose|k: int| is_first_with_id(kids, id, k);
    assert(is_first_with_id(kids, id, k));
    if k < i {
        assert(kids[k].id != id);
    } else if i < k {
        assert(kids[i].id != id);
    }
}

/// Finds the first of `kids` with the identity `id`.
pub(crate) fn find_by_id(kids: &Vec<LayoutModel>, id: ElId) -> (r: Option<usize>)
    ensures
        r is None <==> !has_id(kids@, id),
        r matches Some(i) ==> is_first_with_id(kids@, id, i as int),
{
    let mut i: usize = 0;
    while i < kids.len()
        invariant
            i <= kids@.len(),
            forall|j: int| 0 <= j < i ==> (#[trigger] kids@[j]).id != id,
        decreases kids@.len() - i,
    {
        if kids[i].id == id {
            return Some(i);
        }
        i = i + 1;
    }
    None
}

/// The rectangles of `prev_kids` whose identity is not among `new_kids`, at
/// the absolute offset `off`, in order.
pub open spec fn gone_rects(prev_kids: Seq<LayoutModel>, new_kids: Seq<LayoutModel>, off: Point) -> Seq<Rect>
    decreases prev_kids.len(),
{
    if prev_kids.len() == 0 {
        Seq::empty()
    } else {
        let last = prev_kids.last();
        gone_rects(prev_kids.drop_last(), new_kids, off) + if has_id(new_kids, last.id) {
            Seq::empty()
        } else {
            seq![moved_rect(last.outer, off)]
        }
    }
}

/// The damage of the node pair itself: the union of its old and new absolute
/// rectangles if they differ.
pub open spec fn own_damage(prev: LayoutModel, prev_off: Point, new: LayoutModel, new_off: Point) -> Seq<Rect> {
    let p = moved_rect(prev.outer, prev_off);
    let n = moved_rect(new.outer, new_off);
    if p != n {
        seq![p.spec_union(n)]
    } else {
        Seq::empty()
    }
}

/// The damage of the node pair and of the first `k` children of `new`, each
/// diffed against the child of `prev` with its identity (a child that
/// appeared damages its whole new rectangle).
pub open spec fn damage_upto(prev: LayoutModel, prev_off: Point, new: LayoutModel, new_off: Point, k: int) -> Seq<Rect>
    decreases new, k,
{
    if k <= 0 || k > new.children@.len() {
        own_damage(prev, prev_off, new, new_off)
    } else {
        let pco = sat_translate(prev.inner.top_left, prev_off);
        let nco = sat_translate(new.inner.top_left, new_off);
        let nc = new.children@[k - 1];
        damage_upto(prev, prev_off, new, new_off, k - 1) + match first_with_id(prev.children@, nc.id) {
            Some(pc) => damage_upto(pc, pco, nc, nco, nc.children@.len() as int) + gone_rects(
                pc.children@,
                nc.children@,
                sat_translate(pc.inner.top_left, pco),
            ),
            None => seq![moved_rect(nc.outer, nco)],
        }
    }
}

/// The damage a relayout from `prev` (placed at `prev_off`) to `new` (placed
/// at `new_off`) did: for every node whose absolute rectangle changed, the
/// union of the old and new one; for a node that appeared or disappeared, its
/// rectangle. Parents come before their children, children in order, and
/// the children that disappeared after those that stayed.
pub open spec fn spec_changed(prev: LayoutModel, prev_off: Point, new: LayoutModel, new_off: Point) -> Seq<Rect> {
    damage_upto(prev, prev_off, new, new_off, new.children@.len() as int) + gone_rects(
        prev.children@,
        new.children@,
        sat_translate(prev.inner.top_left, prev_off),
    )
}

fn push_gone(prev: &LayoutModel, new: &LayoutModel, off: Point, damage: &mut Vec<Rect>)
    ensures
        final(damage)@ == old(damage)@ + gone_rects(prev.children@, new.children@, off),
{
    let kids = &prev.children;
    let mut i: usize = 0;
    while i < kids.len()
        invariant
            kids@ == prev.children@,
            i <= kids@.len(),
            damage@ == old(damage)@ + gone_rects(kids@.take(i as int), new.children@, off),
        decreases kids@.len() - i,
    {
        assert(kids@.take(i + 1).drop_last() == kids@.take(i as int));
        assert(kids@.take(i + 1).last() == kids@[i as int]);
        match find_by_id(&new.children, kids[i].id) {
            Some(_) => {},
            None => {
                damage.push(move_rect(kids[i].outer, off));
            },
        }
        i = i + 1;
    }
    assert(kids@.take(kids@.len() as int) == kids@);
}

fn diff_changed(prev: &LayoutModel, prev_off: Point, new: &LayoutModel, new_off: Point, damage: &mut Vec<Rect>)
    ensures
        final(damage)@ == old(damage)@ + spec_changed(*prev, prev_off, *new, new_off),
    decreases new,
{
    let prev_abs = move_rect(prev.outer, prev_off);
    let new_abs = move_rect(new.outer, new_off);
    if prev_abs != new_abs {
        damage.push(prev_abs.union(&new_abs));
    }
    proof {
        assert(damage@ == old(damage)@ + damage_upto(*prev, prev_off, *new, new_off, 0));
    }
    let prev_child_off = move_rect(prev.inner, prev_off).top_left;
    let new_child_off = move_rect(new.inner, new_off).top_left;
    let kids = &new.children;
    let mut i: usize = 0;
    while i < kids.len()
        invariant
            kids@ == new.children@,
            i <= kids@.len(),
            prev_child_off == sat_translate(prev.inner.top_left, prev_off),
            new_child_off == sat_translate(new.inner.top_left, new_off),
            damage@ == old(damage)@ + damage_upto(*prev, prev_off, *new, new_off, i as int),
        decreases kids@.len() - i,
    {
        let new_child = &kids[i];
        let ghost before = damage@;
        match find_by_id(&prev.children, new_child.id) {
            Some(j) => {
                proof {
                    lemma_first_with_id(prev.children@, new_child.id, j as int);
                }
                diff_changed(&prev.children[j], prev_child_off, new_child, new_child_off, damage);
            },
            None => {
                damage.push(move_rect(new_child.outer, new_child_off));
            },
        }
        proof {
            assert(damage@ == before + (damage@.subrange(before.len() as int, damage@.len() as int)));
        }
        i = i + 1;
    }
    push_gone(prev, new, prev_child_off, damage);
}

/// The geometry damage of the relayout from `prev` to `new`: for every node
/// whose absolute rectangle changed, the union of its old and new rectangle
/// (erase where it was, paint where it is). Nodes are matched by identity.
pub fn layout_changed_set(prev: &LayoutModel, new: &LayoutModel) -> (r: Vec<Rect>)
    ensures
        r@ == spec_changed(*prev, Point::zero_spec(), *new, Point::zero_spec()),
{
    let mut damage: Vec<Rect> = Vec::new();
    diff_changed(prev, Point::zero(), new, Point::zero(), &mut damage);
    assert(damage@ == Seq::<Rect>::empty() + spec_changed(*prev, Point::zero_spec(), *new, Point::zero_spec()));
    damage
}

/// Every node's children have distinct identities.
pub open spec fn distinct_ids(m: LayoutModel) -> bool
    decreases m,
{
    &&& forall|i: int, j: int|
        0 <= i < j < m.children@.len() ==> (#[trigger] m.children@[i]).id != (#[trigger] m.children@[j]).id
    &&& forall|i: int| 0 <= i < m.children@.len() ==> distinct_ids(#[trigger] m.children@[i])
}

proof fn lemma_gone_none(prev_kids: Seq<LayoutModel>, new_kids: Seq<LayoutModel>, off: Point)
    requires
        forall|i: int| 0 <= i < prev_kids.len() ==> has_id(new_kids, (#[trigger] prev_kids[i]).id),
    ensures
        gone_rects(prev_kids, new_kids, off) == Seq::<Rect>::empty(),
    decreases prev_kids.len(),
{
    if prev_kids.len() > 0 {
        let last = prev_kids.drop_last();
        assert forall|i: int| 0 <= i < last.len() implies has_id(new_kids, (#[trigger] last[i]).id) by {
            assert(last[i] == prev_kids[i]);
        }
        lemma_gone_none(last, new_kids, off);
        assert(has_id(new_kids, prev_kids[prev_kids.len() - 1].id));
    }
}

proof fn lemma_same_children_ids(a: LayoutModel, b: LayoutModel)
    requires
        a.same_geometry(b),
    ensures
        forall|i: int| 0 <= i < a.children@.len() ==> has_id(b.children@, (#[trigger] a.children@[i]).id),
{
    assert forall|i: int| 0 <= i < a.children@.len() implies has_id(b.children@, (#[trigger] a.children@[i]).id) by {
        assert(a.children@[i].same_geometry(b.children@[i]));
        assert(b.children@[i].id == a.children@[i].id);
    }
}

proof fn lemma_upto_none(a: LayoutModel, b: LayoutModel, off: Point, k: int)
    requires
        a.same_geometry(b),
        distinct_ids(a),
        0 <= k <= b.children@.len(),
    ensures
        damage_upto(a, off, b, off, k) == Seq::<Rect>::empty(),
    decreases b, k,
{
    if k > 0 {
        lemma_upto_none(a, b, off, k - 1);
        let nc = b.children@[k - 1];
        let pc = a.children@[k - 1];
        assert(pc.same_geometry(nc));
        assert(distinct_ids(pc));
        assert(is_first_with_id(a.children@, nc.id, k - 1));
        lemma_first_with_id(a.children@, nc.id, k - 1);
        let pco = sat_translate(a.inner.top_left, off);
        lemma_upto_none(pc, nc, pco, nc.children@.len() as int);
        lemma_same_children_ids(pc, nc);
        lemma_gone_none(pc.children@, nc.children@, sat_translate(pc.inner.top_left, pco));
    }
}

/// Diffing a layout against a layout of the same geometry damages nothing.
pub proof fn lemma_same_geometry_no_damage(prev: LayoutModel, new: LayoutModel, off: Point)
    requires
        prev.same_geometry(new),
        distinct_ids(prev),
    ensures
        spec_changed(prev, off, new, off) == Seq::<Rect>::empty(),
{
    lemma_upto_none(prev, new, off, new.children@.len() as int);
    lemma_same_children_ids(prev, new);
    lemma_gone_none(prev.children@, new.children@, sat_translate(prev.inner.top_left, off));
}

/// Every layout has its own geometry.
pub proof fn lemma_same_geometry_refl(m: LayoutModel)
    ensures
        m.same_geometry(m),
    decreases m,
{
    assert forall|i: int| 0 <= i < m.children@.len() implies (#[trigger] m.children@[i]).same_geometry(
        m.children@[i],
    ) by {
        lemma_same_geometry_refl(m.children@[i]);
    }
}

/// The nodes a targeted relayout must draw again, and whether the whole
/// viewport must be drawn again instead (the root itself moved or resized).
#[derive(Debug, PartialEq, Eq)]
pub struct RepaintRoots {
    pub roots: Vec<ElId>,
    pub full: bool,
}

impl Default for RepaintRoots {
    fn default() -> (r: Self)
        ensures
            r.roots@.len() == 0,
            !r.full,
    {
        RepaintRoots { roots: Vec::new(), full: false }
    }
}

/// `base` with every identity of `marks` added that it does not hold yet, in
/// the order of their first mark.
pub open spec fn mark_all(base: Seq<ElId>, marks: Seq<ElId>) -> Seq<ElId>
    decreases marks.len(),
{
    if marks.len() == 0 {
        base
    } else {
        let b = mark_all(base, marks.drop_last());
        if b.contains(marks.last()) {
            b
        } else {
            b.push(marks.last())
        }
    }
}

/// Marking one list after another is marking their concatenation.
pub proof fn lemma_mark_all_concat(base: Seq<ElId>, s1: Seq<ElId>, s2: Seq<ElId>)
    ensures
        mark_all(mark_all(base, s1), s2) == mark_all(base, s1 + s2),
    decreases s2.len(),
{
    if s2.len() == 0 {
        assert(s1 + s2 == s1);
    } else {
        lemma_mark_all_concat(base, s1, s2.drop_last());
        assert((s1 + s2).drop_last() == s1 + s2.drop_last());
        assert((s1 + s2).last() == s2.last());
    }
}

/// Marking keeps a list free of duplicates and holds exactly what the list
/// and the marks hold.
pub proof fn lemma_mark_all_members(base: Seq<ElId>, marks: Seq<ElId>)
    requires
        base.no_duplicates(),
    ensures
        mark_all(base, marks).no_duplicates(),
        forall|id: ElId| #[trigger] mark_all(base, marks).contains(id) <==> (base.contains(id) || marks.contains(id)),
    decreases marks.len(),
{
    if marks.len() > 0 {
        let rest = marks.drop_last();
        lemma_mark_all_members(base, rest);
        let b = mark_all(base, rest);
        assert forall|id: ElId| #[trigger] mark_all(base, marks).contains(id) <==> (base.contains(id) || marks.contains(
            id,
        )) by {
            if marks.contains(id) && !rest.contains(id) {
                let i = choose|i: int| 0 <= i < marks.len() && marks[i] == id;
                if i < marks.len() - 1 {
                    assert(rest[i] == id);
                }
                assert(marks.last() == id);
            }
            if rest.contains(id) {
                let i = choose|i: int| 0 <= i < rest.len() && rest[i] == id;
                assert(marks[i] == id);
            }
            if !b.contains(marks.last()) {
                if b.push(marks.last()).contains(id) {
                    let i = choose|i: int| 0 <= i < b.push(marks.last()).len() && b.push(marks.last())[i] == id;
                    if i < b.len() {
                        assert(b[i] == id);
                    }
                }
                if b.contains(id) {
                    let i = choose|i: int| 0 <= i < b.len() && b[i] == id;
                    assert(b.push(marks.last())[i] == id);
                }
                assert(b.push(marks.last())[b.len() as int] == marks.last());
            }
        }
    }
}

/// One repaint mark of `id` for every child of `prev_kids` whose identity is
/// not among `new_kids`.
pub open spec fn gone_marks(prev_kids: Seq<LayoutModel>, new_kids: Seq<LayoutModel>, id: ElId) -> Seq<ElId>
    decreases prev_kids.len(),
{
    if prev_kids.len() == 0 {
        Seq::empty()
    } else {
        gone_marks(prev_kids.drop_last(), new_kids, id) + if has_id(new_kids, prev_kids.last().id) {
            Seq::empty()
        } else {
            seq![id]
        }
    }
}

/// The repaint marks below the stable node pair for the first `k` children of
/// `new`: a child whose absolute rectangle changed marks its parent and is
/// not descended into; a stable child is descended into; a child that
/// appeared marks its parent.
pub open spec fn marks_upto(prev: LayoutModel, prev_off: Point, new: LayoutModel, new_off: Point, k: int) -> Seq<ElId>
    decreases new, k,
{
    if k <= 0 || k > new.children@.len() {
        Seq::empty()
    } else {
        let pco = sat_translate(prev.inner.top_left, prev_off);
        let nco = sat_translate(new.inner.top_left, new_off);
        let nc = new.children@[k - 1];
        marks_upto(prev, prev_off, new, new_off, k - 1) + match first_with_id(prev.children@, nc.id) {
            Some(pc) => if moved_rect(pc.outer, pco) != moved_rect(nc.outer, nco) {
                seq![new.id]
            } else {
                marks_upto(pc, pco, nc, nco, nc.children@.len() as int) + gone_marks(
                    pc.children@,
                    nc.children@,
                    nc.id,
                )
            },
            None => seq![new.id],
        }
    }
}

/// The repaint marks of a node pair whose absolute rectangle did not change.
pub open spec fn stable_marks(prev: LayoutModel, prev_off: Point, new: LayoutModel, new_off: Point) -> Seq<ElId> {
    marks_upto(prev, prev_off, new, new_off, new.children@.len() as int) + gone_marks(
        prev.children@,
        new.children@,
        new.id,
    )
}

/// The repaint marks of a relayout from `prev` to `new`, both at the origin.
pub open spec fn spec_repaint_marks(prev: LayoutModel, new: LayoutModel) -> Seq<ElId> {
    if prev.outer != new.outer {
        Seq::empty()
    } else {
        stable_marks(prev, Point::zero_spec(), new, Point::zero_spec())
    }
}

impl RepaintRoots {
    fn mark(&mut self, id: ElId)
        ensures
            final(self).roots@ == mark_all(old(self).roots@, seq![id]),
            final(self).full == old(self).full,
    {
        let mut i: usize = 0;
        while i < self.roots.len()
            invariant
                self.roots@ == old(self).roots@,
                self.full == old(self).full,
                i <= self.roots@.len(),
                forall|j: int| 0 <= j < i ==> self.roots@[j] != id,
            decreases self.roots@.len() - i,
        {
            if self.roots[i] == id {
                assert(seq![id].drop_last() == Seq::<ElId>::empty());
                assert(mark_all(old(self).roots@, Seq::empty()) == old(self).roots@);
                assert(self.roots@.contains(id));
                return;
            }
            i = i + 1;
        }
        assert(seq![id].drop_last() == Seq::<ElId>::empty());
        assert(mark_all(old(self).roots@, Seq::empty()) == old(self).roots@);
        assert(!self.roots@.contains(id));
        self.roots.push(id);
    }
}

fn mark_gone(prev: &LayoutModel, new: &LayoutModel, out: &mut RepaintRoots)
    ensures
        final(out).roots@ == mark_all(old(out).roots@, gone_marks(prev.children@, new.children@, new.id)),
        final(out).full == old(out).full,
{
    let kids = &prev.children;
    let mut i: usize = 0;
    while i < kids.len()
        invariant
            kids@ == prev.children@,
            i <= kids@.len(),
            out.roots@ == mark_all(old(out).roots@, gone_marks(kids@.take(i as int), new.children@, new.id)),
            out.full == old(out).full,
        decreases kids@.len() - i,
    {
        assert(kids@.take(i + 1).drop_last() == kids@.take(i as int));
        assert(kids@.take(i + 1).last() == kids@[i as int]);
        let ghost before = gone_marks(kids@.take(i as int), new.children@, new.id);
        match find_by_id(&new.children, kids[i].id) {
            Some(_) => {
                assert(before + Seq::<ElId>::empty() == before);
            },
            None => {
                out.mark(new.id);
                proof {
                    lemma_mark_all_concat(old(out).roots@, before, seq![new.id]);
                }
            },
        }
        i = i + 1;
    }
    assert(kids@.take(kids@.len() as int) == kids@);
}

fn diff_repaint_roots(
    prev: &LayoutModel,
    prev_off: Point,
    new: &LayoutModel,
    new_off: Point,
    parent_id: Option<ElId>,
    out: &mut RepaintRoots,
)
    ensures
        moved_rect(prev.outer, prev_off) != moved_rect(new.outer, new_off) ==> match parent_id {
            Some(p) => final(out).roots@ == mark_all(old(out).roots@, seq![p]) && final(out).full == old(out).full,
            None => final(out).roots@ == old(out).roots@ && final(out).full,
        },
        moved_rect(prev.outer, prev_off) == moved_rect(new.outer, new_off) ==> final(out).roots@ == mark_all(
            old(out).roots@,
            stable_marks(*prev, prev_off, *new, new_off),
        ) && final(out).full == old(out).full,
    decreases new,
{
    let prev_abs = move_rect(prev.outer, prev_off);
    let new_abs = move_rect(new.outer, new_off);
    if prev_abs != new_abs {
        match parent_id {
            Some(pid) => out.mark(pid),
            None => out.full = true,
        }
        return;
    }
    let prev_child_off = move_rect(prev.inner, prev_off).top_left;
    let new_child_off = move_rect(new.inner, new_off).top_left;
    let kids = &new.children;
    let mut i: usize = 0;
    while i < kids.len()
        invariant
            kids@ == new.children@,
            i <= kids@.len(),
            prev_child_off == sat_translate(prev.inner.top_left, prev_off),
            new_child_off == sat_translate(new.inner.top_left, new_off),
            out.roots@ == mark_all(old(out).roots@, marks_upto(*prev, prev_off, *new, new_off, i as int)),
            out.full == old(out).full,
        decreases kids@.len() - i,
    {
        let new_child = &kids[i];
        let ghost before = marks_upto(*prev, prev_off, *new, new_off, i as int);
        let ghost roots_before = out.roots@;
        match find_by_id(&prev.children, new_child.id) {
            Some(j) => {
                proof {
                    lemma_first_with_id(prev.children@, new_child.id, j as int);
                }
                diff_repaint_roots(&prev.children[j], prev_child_off, new_child, new_child_off, Some(new.id), out);
                proof {
                    let pc = prev.children@[j as int];
                    let part = if moved_rect(pc.outer, prev_child_off) != moved_rect(new_child.outer, new_child_off) {
                        seq![new.id]
                    } else {
                        stable_marks(pc, prev_child_off, *new_child, new_child_off)
                    };
                    lemma_mark_all_concat(old(out).roots@, before, part);
                }
            },
            None => {
                out.mark(new.id);
                proof {
                    lemma_mark_all_concat(old(out).roots@, before, seq![new.id]);
                }
            },
        }
        i = i + 1;
    }
    let ghost upto = marks_upto(*prev, prev_off, *new, new_off, kids@.len() as int);
    mark_gone(prev, new, out);
    proof {
        lemma_mark_all_concat(old(out).roots@, upto, gone_marks(prev.children@, new.children@, new.id));
    }
}

/// Every child of every node of `m`, placed at `off`, lies within its
/// parent's absolute outer rectangle.
pub open spec fn nested(m: LayoutModel, off: Point) -> bool
    decreases m,
{
    let co = sat_translate(m.inner.top_left, off);
    forall|i: int|
        0 <= i < m.children@.len() ==> moved_rect(m.outer, off).covers(moved_rect((#[trigger] m.children@[i]).outer, co))
            && nested(m.children@[i], co)
}

/// The absolute rectangles the node pair itself touched: its old and its new
/// one if they differ.
pub open spec fn own_touched(prev: LayoutModel, prev_off: Point, new: LayoutModel, new_off: Point) -> Seq<Rect> {
    let p = moved_rect(prev.outer, prev_off);
    let n = moved_rect(new.outer, new_off);
    if p != n {
        seq![p, n]
    } else {
        Seq::empty()
    }
}

/// The absolute rectangles touched by the node pair and by the first `k`
/// children of `new` and their subtrees: the old and the new rectangle of
/// every node whose absolute rectangle changed, the new one of a node that
/// appeared, the old one of a node that disappeared.
pub open spec fn touched_upto(prev: LayoutModel, prev_off: Point, new: LayoutModel, new_off: Point, k: int) -> Seq<Rect>
    decreases new, k,
{
    if k <= 0 || k > new.children@.len() {
        own_touched(prev, prev_off, new, new_off)
    } else {
        let pco = sat_translate(prev.inner.top_left, prev_off);
        let nco = sat_translate(new.inner.top_left, new_off);
        let nc = new.children@[k - 1];
        touched_upto(prev, prev_off, new, new_off, k - 1) + match first_with_id(prev.children@, nc.id) {
            Some(pc) => touched_upto(pc, pco, nc, nco, nc.children@.len() as int) + gone_rects(
                pc.children@,
                nc.children@,
                sat_translate(pc.inner.top_left, pco),
            ),
            None => seq![moved_rect(nc.outer, nco)],
        }
    }
}

/// The absolute rectangles a relayout from `prev` to `new` (both at the
/// origin) touched.
pub open spec fn spec_touched(prev: LayoutModel, new: LayoutModel) -> Seq<Rect> {
    touched_upto(prev, Point::zero_spec(), new, Point::zero_spec(), new.children@.len() as int) + gone_rects(
        prev.children@,
        new.children@,
        sat_translate(prev.inner.top_left, Point::zero_spec()),
    )
}

/// `at` once for every child of `prev_kids` whose identity is not among
/// `new_kids`.
pub open spec fn gone_marks_at(prev_kids: Seq<LayoutModel>, new_kids: Seq<LayoutModel>, at: (ElId, Rect)) -> Seq<
    (ElId, Rect),
>
    decreases prev_kids.len(),
{
    if prev_kids.len() == 0 {
        Seq::empty()
    } else {
        gone_marks_at(prev_kids.drop_last(), new_kids, at) + if has_id(new_kids, prev_kids.last().id) {
            Seq::empty()
        } else {
            seq![at]
        }
    }
}

/// The repaint marks of `marks_upto`, each with the absolute new outer
/// rectangle of the marked node.
pub open spec fn marks_at_upto(prev: LayoutModel, prev_off: Point, new: LayoutModel, new_off: Point, k: int) -> Seq<
    (ElId, Rect),
>
    decreases new, k,
{
    if k <= 0 || k > new.children@.len() {
        Seq::empty()
    } else {
        let pco = sat_translate(prev.inner.top_left, prev_off);
        let nco = sat_translate(new.inner.top_left, new_off);
        let nc = new.children@[k - 1];
        let here = (new.id, moved_rect(new.outer, new_off));
        marks_at_upto(prev, prev_off, new, new_off, k - 1) + match first_with_id(prev.children@, nc.id) {
            Some(pc) => if moved_rect(pc.outer, pco) != moved_rect(nc.outer, nco) {
                seq![here]
            } else {
                marks_at_upto(pc, pco, nc, nco, nc.children@.len() as int) + gone_marks_at(
                    pc.children@,
                    nc.children@,
                    (nc.id, moved_rect(nc.outer, nco)),
                )
            },
            None => seq![here],
        }
    }
}

/// The repaint marks of a relayout from `prev` to `new` whose root stayed,
/// each with the marked node's absolute outer rectangle in `new`.
pub open spec fn spec_repaint_marks_at(prev: LayoutModel, new: LayoutModel) -> Seq<(ElId, Rect)> {
    marks_at_upto(prev, Point::zero_spec(), new, Point::zero_spec(), new.children@.len() as int) + gone_marks_at(
        prev.children@,
        new.children@,
        (new.id, new.outer),
    )
}

/// `r` lies within the rectangle of some mark of `ms`.
pub open spec fn covered_by_some(ms: Seq<(ElId, Rect)>, r: Rect) -> bool {
    exists|j: int| 0 <= j < ms.len() && (#[trigger] ms[j]).1.covers(r)
}

/// Every rectangle of `rs` lies within the rectangle of some mark of `ms`.
pub open spec fn covered_by(rs: Seq<Rect>, ms: Seq<(ElId, Rect)>) -> bool {
    forall|i: int| 0 <= i < rs.len() ==> covered_by_some(ms, #[trigger] rs[i])
}

proof fn lemma_covers_trans(a: Rect, b: Rect, c: Rect)
    requires
        a.covers(b),
        b.covers(c),
    ensures
        a.covers(c),
{
}

proof fn lemma_covered_concat(r1: Seq<Rect>, m1: Seq<(ElId, Rect)>, r2: Seq<Rect>, m2: Seq<(ElId, Rect)>)
    requires
        covered_by(r1, m1),
        covered_by(r2, m2),
    ensures
        covered_by(r1 + r2, m1 + m2),
{
    let r = r1 + r2;
    let m = m1 + m2;
    assert forall|i: int| 0 <= i < r.len() implies covered_by_some(m, #[trigger] r[i]) by {
        if i < r1.len() {
            assert(r[i] == r1[i]);
            assert(covered_by_some(m1, r1[i]));
            let j = choose|j: int| 0 <= j < m1.len() && (#[trigger] m1[j]).1.covers(r1[i]);
            assert(m[j] == m1[j]);
        } else {
            assert(r[i] == r2[i - r1.len()]);
            assert(covered_by_some(m2, r2[i - r1.len()]));
            let j = choose|j: int| 0 <= j < m2.len() && (#[trigger] m2[j]).1.covers(r2[i - r1.len()]);
            assert(m[j + m1.len()] == m2[j]);
        }
    }
}

proof fn lemma_covered_by_one(rs: Seq<Rect>, at: (ElId, Rect))
    requires
        forall|i: int| 0 <= i < rs.len() ==> at.1.covers(#[trigger] rs[i]),
    ensures
        covered_by(rs, seq![at]),
{
    assert forall|i: int| 0 <= i < rs.len() implies covered_by_some(seq![at], #[trigger] rs[i]) by {
        assert(seq![at][0] == at);
        assert(at.1.covers(rs[i]));
    }
}

proof fn lemma_gone_within(prev_kids: Seq<LayoutModel>, new_kids: Seq<LayoutModel>, off: Point, big: Rect)
    requires
        forall|i: int| 0 <= i < prev_kids.len() ==> big.covers(moved_rect((#[trigger] prev_kids[i]).outer, off)),
    ensures
        forall|i: int|
            0 <= i < gone_rects(prev_kids, new_kids, off).len() ==> big.covers(
                #[trigger] gone_rects(prev_kids, new_kids, off)[i],
            ),
    decreases prev_kids.len(),
{
    if prev_kids.len() > 0 {
        let rest = prev_kids.drop_last();
        assert forall|i: int| 0 <= i < rest.len() implies big.covers(moved_rect((#[trigger] rest[i]).outer, off)) by {
            assert(rest[i] == prev_kids[i]);
        }
        lemma_gone_within(rest, new_kids, off, big);
        assert(big.covers(moved_rect(prev_kids[prev_kids.len() - 1].outer, off)));
        let g = gone_rects(prev_kids, new_kids, off);
        let g0 = gone_rects(rest, new_kids, off);
        assert forall|i: int| 0 <= i < g.len() implies big.covers(#[trigger] g[i]) by {
            if i < g0.len() {
                assert(g[i] == g0[i]);
            }
        }
    }
}

proof fn lemma_gone_marks_cover(prev_kids: Seq<LayoutModel>, new_kids: Seq<LayoutModel>, off: Point, at: (ElId, Rect))
    requires
        forall|i: int| 0 <= i < prev_kids.len() ==> at.1.covers(moved_rect((#[trigger] prev_kids[i]).outer, off)),
    ensures
        covered_by(gone_rects(prev_kids, new_kids, off), gone_marks_at(prev_kids, new_kids, at)),
        forall|j: int|
            0 <= j < gone_marks_at(prev_kids, new_kids, at).len() ==> #[trigger] gone_marks_at(prev_kids, new_kids, at)[j]
                == at,
        gone_rects(prev_kids, new_kids, off).len() == gone_marks_at(prev_kids, new_kids, at).len(),
    decreases prev_kids.len(),
{
    if prev_kids.len() > 0 {
        let rest = prev_kids.drop_last();
        assert forall|i: int| 0 <= i < rest.len() implies at.1.covers(moved_rect((#[trigger] rest[i]).outer, off)) by {
            assert(rest[i] == prev_kids[i]);
        }
        lemma_gone_marks_cover(rest, new_kids, off, at);
        lemma_gone_within(prev_kids, new_kids, off, at.1);
        let g = gone_rects(prev_kids, new_kids, off);
        let gm = gone_marks_at(prev_kids, new_kids, at);
        let gm0 = gone_marks_at(rest, new_kids, at);
        assert forall|j: int| 0 <= j < gm.len() implies #[trigger] gm[j] == at by {
            if j < gm0.len() {
                assert(gm[j] == gm0[j]);
            }
        }
        assert forall|i: int| 0 <= i < g.len() implies covered_by_some(gm, #[trigger] g[i]) by {
            assert(gm[i] == at);
            assert(at.1.covers(g[i]));
        }
    }
}

proof fn lemma_touched_within(prev: LayoutModel, prev_off: Point, new: LayoutModel, new_off: Point, k: int, big: Rect)
    requires
        nested(prev, prev_off),
        nested(new, new_off),
        big.covers(moved_rect(prev.outer, prev_off)),
        big.covers(moved_rect(new.outer, new_off)),
        0 <= k <= new.children@.len(),
    ensures
        forall|i: int|
            0 <= i < touched_upto(prev, prev_off, new, new_off, k).len() ==> big.covers(
                #[trigger] touched_upto(prev, prev_off, new, new_off, k)[i],
            ),
    decreases new, k,
{
    if k > 0 {
        lemma_touched_within(prev, prev_off, new, new_off, k - 1, big);
        let pco = sat_translate(prev.inner.top_left, prev_off);
        let nco = sat_translate(new.inner.top_left, new_off);
        let nc = new.children@[k - 1];
        assert(moved_rect(new.outer, new_off).covers(moved_rect(nc.outer, nco)) && nested(nc, nco));
        lemma_covers_trans(big, moved_rect(new.outer, new_off), moved_rect(nc.outer, nco));
        let part = match first_with_id(prev.children@, nc.id) {
            Some(pc) => touched_upto(pc, pco, nc, nco, nc.children@.len() as int) + gone_rects(
                pc.children@,
                nc.children@,
                sat_translate(pc.inner.top_left, pco),
            ),
            None => seq![moved_rect(nc.outer, nco)],
        };
        match first_with_id(prev.children@, nc.id) {
            Some(pc) => {
                let j = choose|i: int| is_first_with_id(prev.children@, nc.id, i);
                assert(has_id(prev.children@, nc.id));
                let w = choose|i: int| 0 <= i < prev.children@.len() && (#[trigger] prev.children@[i]).id == nc.id;
                assert(is_first_with_id(prev.children@, nc.id, j)) by {
                    lemma_some_first(prev.children@, nc.id, w);
                }
                assert(pc == prev.children@[j]);
                assert(moved_rect(prev.outer, prev_off).covers(moved_rect(pc.outer, pco)) && nested(pc, pco));
                lemma_covers_trans(big, moved_rect(prev.outer, prev_off), moved_rect(pc.outer, pco));
                lemma_touched_within(pc, pco, nc, nco, nc.children@.len() as int, big);
                let gco = sat_translate(pc.inner.top_left, pco);
                assert forall|i: int| 0 <= i < pc.children@.len() implies big.covers(
                    moved_rect((#[trigger] pc.children@[i]).outer, gco),
                ) by {
                    assert(moved_rect(pc.outer, pco).covers(moved_rect(pc.children@[i].outer, gco)));
                    lemma_covers_trans(big, moved_rect(pc.outer, pco), moved_rect(pc.children@[i].outer, gco));
                }
                lemma_gone_within(pc.children@, nc.children@, gco, big);
                let t1 = touched_upto(pc, pco, nc, nco, nc.children@.len() as int);
                let t2 = gone_rects(pc.children@, nc.children@, gco);
                assert forall|i: int| 0 <= i < part.len() implies big.covers(#[trigger] part[i]) by {
                    if i < t1.len() {
                        assert(part[i] == t1[i]);
                    } else {
                        assert(part[i] == t2[i - t1.len()]);
                    }
                }
            },
            None => {
                assert forall|i: int| 0 <= i < part.len() implies big.covers(#[trigger] part[i]) by {
                    assert(part[i] == moved_rect(nc.outer, nco));
                }
            },
        }
        let t0 = touched_upto(prev, prev_off, new, new_off, k - 1);
        let t = touched_upto(prev, prev_off, new, new_off, k);
        assert(t == t0 + part);
        assert forall|i: int| 0 <= i < t.len() implies big.covers(#[trigger] t[i]) by {
            if i < t0.len() {
                assert(t[i] == t0[i]);
            } else {
                assert(t[i] == part[i - t0.len()]);
            }
        }
    } else {
        let t = touched_upto(prev, prev_off, new, new_off, k);
        assert forall|i: int| 0 <= i < t.len() implies big.covers(#[trigger] t[i]) by {
            if moved_rect(prev.outer, prev_off) != moved_rect(new.outer, new_off) {
                assert(t == seq![moved_rect(prev.outer, prev_off), moved_rect(new.outer, new_off)]);
            }
        }
    }
}

/// A position holding an identity leads to a first position holding it.
proof fn lemma_some_first(kids: Seq<LayoutModel>, id: ElId, w: int)
    requires
        0 <= w < kids.len(),
        kids[w].id == id,
    ensures
        exists|i: int| is_first_with_id(kids, id, i),
    decreases w,
{
    if exists|j: int| 0 <= j < w && (#[trigger] kids[j]).id == id {
        let j = choose|j: int| 0 <= j < w && (#[trigger] kids[j]).id == id;
        lemma_some_first(kids, id, j);
    } else {
        assert(is_first_with_id(kids, id, w));
    }
}

/// The marks with rectangles name the same nodes as the repaint marks.
proof fn lemma_marks_at_ids(prev: LayoutModel, prev_off: Point, new: LayoutModel, new_off: Point, k: int)
    requires
        0 <= k <= new.children@.len(),
    ensures
        marks_at_upto(prev, prev_off, new, new_off, k).map_values(|p: (ElId, Rect)| p.0) == marks_upto(
            prev,
            prev_off,
            new,
            new_off,
            k,
        ),
    decreases new, k,
{
    if k > 0 {
        lemma_marks_at_ids(prev, prev_off, new, new_off, k - 1);
        let pco = sat_translate(prev.inner.top_left, prev_off);
        let nco = sat_translate(new.inner.top_left, new_off);
        let nc = new.children@[k - 1];
        let here = (new.id, moved_rect(new.outer, new_off));
        let f = |p: (ElId, Rect)| p.0;
        let part = match first_with_id(prev.children@, nc.id) {
            Some(pc) => if moved_rect(pc.outer, pco) != moved_rect(nc.outer, nco) {
                seq![here]
            } else {
                marks_at_upto(pc, pco, nc, nco, nc.children@.len() as int) + gone_marks_at(
                    pc.children@,
                    nc.children@,
                    (nc.id, moved_rect(nc.outer, nco)),
                )
            },
            None => seq![here],
        };
        let ids = match first_with_id(prev.children@, nc.id) {
            Some(pc) => if moved_rect(pc.outer, pco) != moved_rect(nc.outer, nco) {
                seq![new.id]
            } else {
                marks_upto(pc, pco, nc, nco, nc.children@.len() as int) + gone_marks(pc.children@, nc.children@, nc.id)
            },
            None => seq![new.id],
        };
        match first_with_id(prev.children@, nc.id) {
            Some(pc) => {
                if moved_rect(pc.outer, pco) == moved_rect(nc.outer, nco) {
                    if first_with_id(prev.children@, nc.id) is Some {
                        let j = choose|i: int| is_first_with_id(prev.children@, nc.id, i);
                        let w = choose|i: int| 0 <= i < prev.children@.len() && (#[trigger] prev.children@[i]).id == nc.id;
                        lemma_some_first(prev.children@, nc.id, w);
                    }
                    lemma_marks_at_ids(pc, pco, nc, nco, nc.children@.len() as int);
                    lemma_gone_marks_at_ids(pc.children@, nc.children@, (nc.id, moved_rect(nc.outer, nco)));
                    let a = marks_at_upto(pc, pco, nc, nco, nc.children@.len() as int);
                    let b = gone_marks_at(pc.children@, nc.children@, (nc.id, moved_rect(nc.outer, nco)));
                    assert((a + b).map_values(f) =~= a.map_values(f) + b.map_values(f));
                }
            },
            None => {},
        }
        assert(part.map_values(f) =~= ids);
        let m0 = marks_at_upto(prev, prev_off, new, new_off, k - 1);
        assert((m0 + part).map_values(f) =~= m0.map_values(f) + part.map_values(f));
    }
}

proof fn lemma_gone_marks_at_ids(prev_kids: Seq<LayoutModel>, new_kids: Seq<LayoutModel>, at: (ElId, Rect))
    ensures
        gone_marks_at(prev_kids, new_kids, at).map_values(|p: (ElId, Rect)| p.0) == gone_marks(prev_kids, new_kids, at.0),
    decreases prev_kids.len(),
{
    if prev_kids.len() > 0 {
        lemma_gone_marks_at_ids(prev_kids.drop_last(), new_kids, at);
        let f = |p: (ElId, Rect)| p.0;
        let a = gone_marks_at(prev_kids.drop_last(), new_kids, at);
        let b: Seq<(ElId, Rect)> = if has_id(new_kids, prev_kids.last().id) {
            Seq::empty()
        } else {
            seq![at]
        };
        assert((a + b).map_values(f) =~= a.map_values(f) + b.map_values(f));
        assert(b.map_values(f) =~= (if has_id(new_kids, prev_kids.last().id) {
            Seq::<ElId>::empty()
        } else {
            seq![at.0]
        }));
    }
}

/// Below a node pair whose rectangle stayed, every touched rectangle lies
/// within the rectangle of a repaint mark, if every child lies within its
/// parent.
proof fn lemma_cover_stable(prev: LayoutModel, prev_off: Point, new: LayoutModel, new_off: Point, k: int)
    requires
        moved_rect(prev.outer, prev_off) == moved_rect(new.outer, new_off),
        nested(prev, prev_off),
        nested(new, new_off),
        0 <= k <= new.children@.len(),
    ensures
        covered_by(touched_upto(prev, prev_off, new, new_off, k), marks_at_upto(prev, prev_off, new, new_off, k)),
    decreases new, k,
{
    if k > 0 {
        lemma_cover_stable(prev, prev_off, new, new_off, k - 1);
        let pco = sat_translate(prev.inner.top_left, prev_off);
        let nco = sat_translate(new.inner.top_left, new_off);
        let nc = new.children@[k - 1];
        let big = moved_rect(new.outer, new_off);
        let here = (new.id, big);
        assert(big.covers(moved_rect(nc.outer, nco)) && nested(nc, nco));
        let tpart = match first_with_id(prev.children@, nc.id) {
            Some(pc) => touched_upto(pc, pco, nc, nco, nc.children@.len() as int) + gone_rects(
                pc.children@,
                nc.children@,
                sat_translate(pc.inner.top_left, pco),
            ),
            None => seq![moved_rect(nc.outer, nco)],
        };
        let mpart = match first_with_id(prev.children@, nc.id) {
            Some(pc) => if moved_rect(pc.outer, pco) != moved_rect(nc.outer, nco) {
                seq![here]
            } else {
                marks_at_upto(pc, pco, nc, nco, nc.children@.len() as int) + gone_marks_at(
                    pc.children@,
                    nc.children@,
                    (nc.id, moved_rect(nc.outer, nco)),
                )
            },
            None => seq![here],
        };
        match first_with_id(prev.children@, nc.id) {
            Some(pc) => {
                let j = choose|i: int| is_first_with_id(prev.children@, nc.id, i);
                let w = choose|i: int| 0 <= i < prev.children@.len() && (#[trigger] prev.children@[i]).id == nc.id;
                lemma_some_first(prev.children@, nc.id, w);
                assert(pc == prev.children@[j]);
                assert(big.covers(moved_rect(pc.outer, pco)) && nested(pc, pco));
                let gco = sat_translate(pc.inner.top_left, pco);
                let t1 = touched_upto(pc, pco, nc, nco, nc.children@.len() as int);
                let t2 = gone_rects(pc.children@, nc.children@, gco);
                if moved_rect(pc.outer, pco) != moved_rect(nc.outer, nco) {
                    lemma_touched_within(pc, pco, nc, nco, nc.children@.len() as int, big);
                    assert forall|i: int| 0 <= i < pc.children@.len() implies big.covers(
                        moved_rect((#[trigger] pc.children@[i]).outer, gco),
                    ) by {
                        assert(moved_rect(pc.outer, pco).covers(moved_rect(pc.children@[i].outer, gco)));
                        lemma_covers_trans(big, moved_rect(pc.outer, pco), moved_rect(pc.children@[i].outer, gco));
                    }
                    lemma_gone_within(pc.children@, nc.children@, gco, big);
                    assert forall|i: int| 0 <= i < tpart.len() implies big.covers(#[trigger] tpart[i]) by {
                        if i < t1.len() {
                            assert(tpart[i] == t1[i]);
                        } else {
                            assert(tpart[i] == t2[i - t1.len()]);
                        }
                    }
                    lemma_covered_by_one(tpart, here);
                } else {
                    lemma_cover_stable(pc, pco, nc, nco, nc.children@.len() as int);
                    let at = (nc.id, moved_rect(nc.outer, nco));
                    assert forall|i: int| 0 <= i < pc.children@.len() implies at.1.covers(
                        moved_rect((#[trigger] pc.children@[i]).outer, gco),
                    ) by {
                        assert(moved_rect(pc.outer, pco).covers(moved_rect(pc.children@[i].outer, gco)));
                    }
                    lemma_gone_marks_cover(pc.children@, nc.children@, gco, at);
                    lemma_covered_concat(
                        t1,
                        marks_at_upto(pc, pco, nc, nco, nc.children@.len() as int),
                        t2,
                        gone_marks_at(pc.children@, nc.children@, at),
                    );
                }
            },
            None => {
                assert forall|i: int| 0 <= i < tpart.len() implies big.covers(#[trigger] tpart[i]) by {
                    assert(tpart[i] == moved_rect(nc.outer, nco));
                }
                lemma_covered_by_one(tpart, here);
            },
        }
        lemma_covered_concat(
            touched_upto(prev, prev_off, new, new_off, k - 1),
            marks_at_upto(prev, prev_off, new, new_off, k - 1),
            tpart,
            mpart,
        );
    } else {
        assert(touched_upto(prev, prev_off, new, new_off, k) =~= Seq::<Rect>::empty());
    }
}

/// Repaint roots cover all damage: when every child lies within its parent,
/// in both layouts, and the root's rectangle stayed (so not the whole
/// viewport is drawn again), every rectangle a node had or has where it
/// changed, appeared or disappeared lies within the rectangle in `new` of a
/// repaint root.
pub proof fn lemma_repaint_roots_cover(prev: LayoutModel, new: LayoutModel)
    requires
        nested(prev, Point::zero_spec()),
        nested(new, Point::zero_spec()),
        prev.outer == new.outer,
    ensures
        covered_by(spec_touched(prev, new), spec_repaint_marks_at(prev, new)),
        spec_repaint_marks_at(prev, new).map_values(|p: (ElId, Rect)| p.0) == spec_repaint_marks(prev, new),
        forall|j: int|
            0 <= j < spec_repaint_marks_at(prev, new).len() ==> mark_all(
                Seq::empty(),
                spec_repaint_marks(prev, new),
            ).contains((#[trigger] spec_repaint_marks_at(prev, new)[j]).0),
{
    let o = Point::zero_spec();
    lemma_at_origin(prev.outer);
    lemma_at_origin(new.outer);
    let n = new.children@.len() as int;
    lemma_cover_stable(prev, o, new, o, n);
    let gco = sat_translate(prev.inner.top_left, o);
    let at = (new.id, new.outer);
    assert forall|i: int| 0 <= i < prev.children@.len() implies at.1.covers(
        moved_rect((#[trigger] prev.children@[i]).outer, gco),
    ) by {
        assert(moved_rect(prev.outer, o).covers(moved_rect(prev.children@[i].outer, gco)));
    }
    lemma_gone_marks_cover(prev.children@, new.children@, gco, at);
    lemma_covered_concat(
        touched_upto(prev, o, new, o, n),
        marks_at_upto(prev, o, new, o, n),
        gone_rects(prev.children@, new.children@, gco),
        gone_marks_at(prev.children@, new.children@, at),
    );
    lemma_marks_at_ids(prev, o, new, o, n);
    lemma_gone_marks_at_ids(prev.children@, new.children@, at);
    let f = |p: (ElId, Rect)| p.0;
    let a = marks_at_upto(prev, o, new, o, n);
    let b = gone_marks_at(prev.children@, new.children@, at);
    assert((a + b).map_values(f) =~= a.map_values(f) + b.map_values(f));
    let ms = spec_repaint_marks_at(prev, new);
    let ids = spec_repaint_marks(prev, new);
    lemma_mark_all_members(Seq::empty(), ids);
    assert forall|j: int| 0 <= j < ms.len() implies mark_all(Seq::empty(), ids).contains((#[trigger] ms[j]).0) by {
        assert(ms.map_values(f)[j] == ms[j].0);
        assert(ids[j] == ms[j].0);
    }
}

proof fn lemma_at_origin(r: Rect)
    ensures
        moved_rect(r, Point::zero_spec()) == r,
{
}

/// The nodes to draw again to take the screen from `prev` to `new`: for every
/// node whose absolute rectangle changed, its nearest ancestor whose own
/// rectangle did not (it holds both the old and the new place), each once;
/// `full` when the root itself changed.
pub fn layout_repaint_roots(prev: &LayoutModel, new: &LayoutModel) -> (r: RepaintRoots)
    ensures
        r.full <==> prev.outer != new.outer,
        r.roots@ == mark_all(Seq::empty(), spec_repaint_marks(*prev, *new)),
{
    let mut out = RepaintRoots::default();
    proof {
        lemma_at_origin(prev.outer);
        lemma_at_origin(new.outer);
        assert(out.roots@ == Seq::<ElId>::empty());
    }
    diff_repaint_roots(prev, Point::zero(), new, Point::zero(), None, &mut out);
    out
}

/// The repaint roots name each node at most once, and name exactly the
/// nodes that were marked.
pub proof fn lemma_repaint_roots_distinct(prev: LayoutModel, new: LayoutModel)
    ensures
        mark_all(Seq::empty(), spec_repaint_marks(prev, new)).no_duplicates(),
        forall|id: ElId|
            #[trigger] mark_all(Seq::empty(), spec_repaint_marks(prev, new)).contains(id) <==> spec_repaint_marks(
                prev,
                new,
            ).contains(id),
{
    lemma_mark_all_members(Seq::empty(), spec_repaint_marks(prev, new));
}

proof fn lemma_gone_marks_none(prev_kids: Seq<LayoutModel>, new_kids: Seq<LayoutModel>, id: ElId)
    requires
        forall|i: int| 0 <= i < prev_kids.len() ==> has_id(new_kids, (#[trigger] prev_kids[i]).id),
    ensures
        gone_marks(prev_kids, new_kids, id) == Seq::<ElId>::empty(),
    decreases prev_kids.len(),
{
    if prev_kids.len() > 0 {
        let last = prev_kids.drop_last();
        assert forall|i: int| 0 <= i < last.len() implies has_id(new_kids, (#[trigger] last[i]).id) by {
            assert(last[i] == prev_kids[i]);
        }
        lemma_gone_marks_none(last, new_kids, id);
        assert(has_id(new_kids, prev_kids[prev_kids.len() - 1].id));
    }
}

proof fn lemma_marks_upto_none(a: LayoutModel, b: LayoutModel, off: Point, k: int)
    requires
        a.same_geometry(b),
        distinct_ids(a),
        0 <= k <= b.children@.len(),
    ensures
        marks_upto(a, off, b, off, k) == Seq::<ElId>::empty(),
    decreases b, k,
{
    if k > 0 {
        lemma_marks_upto_none(a, b, off, k - 1);
        let nc = b.children@[k - 1];
        let pc = a.children@[k - 1];
        assert(pc.same_geometry(nc));
        assert(distinct_ids(pc));
        assert(is_first_with_id(a.children@, nc.id, k - 1));
        lemma_first_with_id(a.children@, nc.id, k - 1);
        let pco = sat_translate(a.inner.top_left, off);
        lemma_marks_upto_none(pc, nc, pco, nc.children@.len() as int);
        lemma_same_children_ids(pc, nc);
        lemma_gone_marks_none(pc.children@, nc.children@, nc.id);
    }
}

/// A relayout to a layout of the same geometry draws nothing again: no
/// repaint root, and not the whole viewport.
pub proof fn lemma_same_geometry_no_repaint(prev: LayoutModel, new: LayoutModel)
    requires
        prev.same_geometry(new),
        distinct_ids(prev),
    ensures
        prev.outer == new.outer,
        spec_repaint_marks(prev, new) == Seq::<ElId>::empty(),
        mark_all(Seq::empty(), spec_repaint_marks(prev, new)) == Seq::<ElId>::empty(),
{
    lemma_marks_upto_none(prev, new, Point::zero_spec(), new.children@.len() as int);
    lemma_same_children_ids(prev, new);
    lemma_gone_marks_none(prev.children@, new.children@, new.id);
}

/// A child that disappeared both damages its rectangle and marks its
/// parent.
proof fn lemma_gone_len(prev_kids: Seq<LayoutModel>, new_kids: Seq<LayoutModel>, off: Point, id: ElId)
    ensures
        gone_rects(prev_kids, new_kids, off).len() == gone_marks(prev_kids, new_kids, id).len(),
    decreases prev_kids.len(),
{
    if prev_kids.len() > 0 {
        lemma_gone_len(prev_kids.drop_last(), new_kids, off, id);
    }
}

/// The damage of a node pair and its children holds the pair's own damage.
proof fn lemma_upto_own(prev: LayoutModel, prev_off: Point, new: LayoutModel, new_off: Point, k: int)
    requires
        0 <= k <= new.children@.len(),
    ensures
        damage_upto(prev, prev_off, new, new_off, k).len() >= own_damage(prev, prev_off, new, new_off).len(),
    decreases k,
{
    if k > 0 {
        lemma_upto_own(prev, prev_off, new, new_off, k - 1);
    }
}

/// Below a node pair whose rectangle did not change, the children damage
/// something exactly when they mark something to draw again.
proof fn lemma_upto_iff(prev: LayoutModel, prev_off: Point, new: LayoutModel, new_off: Point, k: int)
    requires
        moved_rect(prev.outer, prev_off) == moved_rect(new.outer, new_off),
        0 <= k <= new.children@.len(),
    ensures
        damage_upto(prev, prev_off, new, new_off, k).len() == 0 <==> marks_upto(prev, prev_off, new, new_off, k).len()
            == 0,
    decreases new, k,
{
    if k > 0 {
        lemma_upto_iff(prev, prev_off, new, new_off, k - 1);
        let pco = sat_translate(prev.inner.top_left, prev_off);
        let nco = sat_translate(new.inner.top_left, new_off);
        let nc = new.children@[k - 1];
        match first_with_id(prev.children@, nc.id) {
            Some(pc) => {
                lemma_upto_own(pc, pco, nc, nco, nc.children@.len() as int);
                if moved_rect(pc.outer, pco) == moved_rect(nc.outer, nco) {
                    lemma_upto_iff(pc, pco, nc, nco, nc.children@.len() as int);
                    lemma_gone_len(pc.children@, nc.children@, sat_translate(pc.inner.top_left, pco), nc.id);
                }
            },
            None => {},
        }
    }
}

/// A relayout damaged nothing exactly when it leaves nothing to draw again:
/// no repaint root and not the whole viewport.
pub proof fn lemma_no_damage_iff_no_repaint(prev: LayoutModel, new: LayoutModel)
    ensures
        spec_changed(prev, Point::zero_spec(), new, Point::zero_spec()).len() == 0 <==> (prev.outer == new.outer
            && spec_repaint_marks(prev, new).len() == 0),
{
    let o = Point::zero_spec();
    lemma_at_origin(prev.outer);
    lemma_at_origin(new.outer);
    lemma_upto_own(prev, o, new, o, new.children@.len() as int);
    if prev.outer == new.outer {
        lemma_upto_iff(prev, o, new, o, new.children@.len() as int);
        lemma_gone_len(prev.children@, new.children@, sat_translate(prev.inner.top_left, o), new.id);
    }
}


/// The two layouts have the same tree: the same identities in the same
/// places, the children of every node with distinct identities.
pub open spec fn same_shape(a: LayoutModel, b: LayoutModel) -> bool
    decreases a,
{
    &&& a.id == b.id
    &&& a.children@.len() == b.children@.len()
    &&& forall|i: int, j: int|
        0 <= i < j < a.children@.len() ==> (#[trigger] a.children@[i]).id != (#[trigger] a.children@[j]).id
    &&& forall|i: int| 0 <= i < a.children@.len() ==> same_shape(#[trigger] a.children@[i], b.children@[i])
}

/// The node `m` placed at `off` and the subtrees of its first `k` children:
/// each node's identity with its absolute outer rectangle, parents before
/// their children, children in order.
pub open spec fn abs_upto(m: LayoutModel, off: Point, k: int) -> Seq<(ElId, Rect)>
    decreases m, k,
{
    if k <= 0 || k > m.children@.len() {
        seq![(m.id, moved_rect(m.outer, off))]
    } else {
        let c = m.children@[k - 1];
        abs_upto(m, off, k - 1) + abs_upto(c, sat_translate(m.inner.top_left, off), c.children@.len() as int)
    }
}

/// Every node of `m` placed at `off`, with its absolute outer rectangle.
pub open spec fn abs_nodes(m: LayoutModel, off: Point) -> Seq<(ElId, Rect)> {
    abs_upto(m, off, m.children@.len() as int)
}

/// Going through two lists of nodes side by side, the union of the two
/// rectangles of every pair whose rectangles differ.
pub open spec fn changed_unions(ps: Seq<(ElId, Rect)>, ns: Seq<(ElId, Rect)>) -> Seq<Rect>
    decreases ns.len(),
{
    if ns.len() == 0 || ps.len() == 0 {
        Seq::empty()
    } else {
        changed_unions(ps.drop_last(), ns.drop_last()) + if ps.last().1 != ns.last().1 {
            seq![ps.last().1.spec_union(ns.last().1)]
        } else {
            Seq::empty()
        }
    }
}

proof fn lemma_changed_unions_add(a1: Seq<(ElId, Rect)>, a2: Seq<(ElId, Rect)>, b1: Seq<(ElId, Rect)>, b2: Seq<(ElId, Rect)>)
    requires
        a1.len() == b1.len(),
        a2.len() == b2.len(),
    ensures
        changed_unions(a1 + a2, b1 + b2) == changed_unions(a1, b1) + changed_unions(a2, b2),
    decreases a2.len(),
{
    if a2.len() == 0 {
        assert(a1 + a2 =~= a1);
        assert(b1 + b2 =~= b1);
        assert(changed_unions(a1, b1) + changed_unions(a2, b2) =~= changed_unions(a1, b1));
    } else {
        lemma_changed_unions_add(a1, a2.drop_last(), b1, b2.drop_last());
        assert((a1 + a2).drop_last() =~= a1 + a2.drop_last());
        assert((b1 + b2).drop_last() =~= b1 + b2.drop_last());
        assert(changed_unions(a1, b1) + changed_unions(a2, b2) =~= changed_unions(a1, b1) + changed_unions(
            a2.drop_last(),
            b2.drop_last(),
        ) + (if a2.last().1 != b2.last().1 {
            seq![a2.last().1.spec_union(b2.last().1)]
        } else {
            Seq::<Rect>::empty()
        }));
    }
}

proof fn lemma_damage_upto_unions(prev: LayoutModel, prev_off: Point, new: LayoutModel, new_off: Point, k: int)
    requires
        same_shape(prev, new),
        0 <= k <= new.children@.len(),
    ensures
        abs_upto(prev, prev_off, k).len() == abs_upto(new, new_off, k).len(),
        forall|i: int|
            0 <= i < abs_upto(new, new_off, k).len() ==> (#[trigger] abs_upto(prev, prev_off, k)[i]).0 == abs_upto(
                new,
                new_off,
                k,
            )[i].0,
        damage_upto(prev, prev_off, new, new_off, k) == changed_unions(
            abs_upto(prev, prev_off, k),
            abs_upto(new, new_off, k),
        ),
    decreases new, k,
{
    let p = moved_rect(prev.outer, prev_off);
    let n = moved_rect(new.outer, new_off);
    if k == 0 {
        assert(seq![(prev.id, p)].drop_last() =~= Seq::<(ElId, Rect)>::empty());
        assert(seq![(new.id, n)].drop_last() =~= Seq::<(ElId, Rect)>::empty());
        let e = Seq::<(ElId, Rect)>::empty();
        assert(changed_unions(e, e) =~= Seq::<Rect>::empty());
        assert(seq![(prev.id, p)].last() == (prev.id, p));
        assert(seq![(new.id, n)].last() == (new.id, n));
        assert(changed_unions(seq![(prev.id, p)], seq![(new.id, n)]) =~= own_damage(prev, prev_off, new, new_off));
    } else {
        lemma_damage_upto_unions(prev, prev_off, new, new_off, k - 1);
        let pco = sat_translate(prev.inner.top_left, prev_off);
        let nco = sat_translate(new.inner.top_left, new_off);
        let pc = prev.children@[k - 1];
        let nc = new.children@[k - 1];
        assert(same_shape(pc, nc));
        lemma_damage_upto_unions(pc, pco, nc, nco, nc.children@.len() as int);
        assert forall|j: int| 0 <= j < k - 1 implies (#[trigger] prev.children@[j]).id != nc.id by {
            assert(prev.children@[j].id != prev.children@[k - 1].id);
        }
        lemma_first_with_id(prev.children@, nc.id, k - 1);
        assert forall|i: int| 0 <= i < pc.children@.len() implies has_id(nc.children@, (#[trigger] pc.children@[i]).id) by {
            assert(same_shape(pc.children@[i], nc.children@[i]));
            assert(nc.children@[i].id == pc.children@[i].id);
        }
        lemma_gone_none(pc.children@, nc.children@, sat_translate(pc.inner.top_left, pco));
        let a1 = abs_upto(prev, prev_off, k - 1);
        let b1 = abs_upto(new, new_off, k - 1);
        let a2 = abs_upto(pc, pco, pc.children@.len() as int);
        let b2 = abs_upto(nc, nco, nc.children@.len() as int);
        lemma_changed_unions_add(a1, a2, b1, b2);
        assert(abs_upto(prev, prev_off, k) == a1 + a2);
        assert(abs_upto(new, new_off, k) == b1 + b2);
        assert forall|i: int| 0 <= i < (b1 + b2).len() implies (#[trigger] (a1 + a2)[i]).0 == (b1 + b2)[i].0 by {
            if i < a1.len() {
                assert(a1[i].0 == b1[i].0);
            } else {
                assert(a2[i - a1.len()].0 == b2[i - a1.len()].0);
            }
        }
        assert(damage_upto(prev, prev_off, new, new_off, k) == damage_upto(prev, prev_off, new, new_off, k - 1)
            + (damage_upto(pc, pco, nc, nco, nc.children@.len() as int) + Seq::<Rect>::empty()));
        assert(damage_upto(pc, pco, nc, nco, nc.children@.len() as int) + Seq::<Rect>::empty() =~= damage_upto(
            pc,
            pco,
            nc,
            nco,
            nc.children@.len() as int,
        ));
    }
}

/// The damage of a relayout that kept the tree: going through the nodes of
/// both layouts side by side, parents before their children, every node has
/// the same identity in both, and the damage holds, in that order, the union
/// of the old and the new absolute rectangle of each node whose absolute
/// rectangle changed, and nothing else.
pub proof fn lemma_changed_set_is_unions(prev: LayoutModel, new: LayoutModel)
    requires
        same_shape(prev, new),
    ensures
        abs_nodes(prev, Point::zero_spec()).len() == abs_nodes(new, Point::zero_spec()).len(),
        forall|i: int|
            0 <= i < abs_nodes(new, Point::zero_spec()).len() ==> (#[trigger] abs_nodes(prev, Point::zero_spec())[i]).0
                == abs_nodes(new, Point::zero_spec())[i].0,
        spec_changed(prev, Point::zero_spec(), new, Point::zero_spec()) == changed_unions(
            abs_nodes(prev, Point::zero_spec()),
            abs_nodes(new, Point::zero_spec()),
        ),
{
    let o = Point::zero_spec();
    lemma_damage_upto_unions(prev, o, new, o, new.children@.len() as int);
    assert forall|i: int| 0 <= i < prev.children@.len() implies has_id(new.children@, (#[trigger] prev.children@[i]).id) by {
        assert(same_shape(prev.children@[i], new.children@[i]));
        assert(new.children@[i].id == prev.children@[i].id);
    }
    lemma_gone_none(prev.children@, new.children@, sat_translate(prev.inner.top_left, o));
    assert(spec_changed(prev, o, new, o) =~= damage_upto(prev, o, new, o, new.children@.len() as int));
}

} // verus!
