//! The element tree the layout pass walks.
//!
//! **Transparent nodes** own no layout level: their single child inherits
//! their slot. [`effective_children`] flattens them out, so a layout model has
//! one child per *effective* child and the tree and model child counts stay
//! equal.
use crate::layout::LayoutData;
use vstd::prelude::*;

verus! {

/// The identity of a node of the element tree.
pub type ElId = usize;

/// An element tree stored by identity: every node lists its children in
/// order, and no node is its own descendant. Identities need not follow the
/// tree: every node has a rank, larger than the ranks of its children.
pub struct LayoutArena {
    layouts: Vec<Option<LayoutData>>,
    children: Vec<Vec<ElId>>,
    transparent: Vec<bool>,
    ranks: Ghost<Seq<nat>>,
}

/// Read access to the element tree for the layout pass.
pub trait LayoutTree {
    /// The node's layout, or `None` if the node is missing.
    fn layout(&self, id: ElId) -> Option<&LayoutData>;

    /// The node's children in order (empty if none).
    fn children(&self, id: ElId) -> &[ElId];

    /// Whether the node owns no layout level.
    fn is_transparent(&self, id: ElId) -> bool;
}

impl LayoutArena {
    /// Every child is a node of the arena with a smaller rank than its
    /// parent. Every arena the public functions make is well formed.
    pub closed spec fn wf(self) -> bool {
        &&& self.children@.len() == self.layouts@.len()
        &&& self.transparent@.len() == self.layouts@.len()
        &&& self.ranks@.len() == self.layouts@.len()
        &&& forall|i: int, k: int|
            0 <= i < self.children@.len() && 0 <= k < self.children@[i]@.len() ==> #[trigger] self.children@[i]@[k]
                < self.children@.len() && self.ranks@[self.children@[i]@[k] as int] < self.ranks@[i]
    }

    /// The rank of `id`: larger than the ranks of its children (0 for a
    /// missing node).
    pub closed spec fn rank(self, id: int) -> nat {
        if 0 <= id < self.ranks@.len() {
            self.ranks@[id]
        } else {
            0
        }
    }

    /// `c` is a node of the arena ranked below `parent`.
    pub open spec fn below(self, parent: ElId, c: ElId) -> bool {
        c < self.count() && self.rank(c as int) < self.rank(parent as int)
    }

    /// How many nodes the arena holds.
    pub closed spec fn count(self) -> int {
        self.layouts@.len() as int
    }

    /// The children of `id` (none for a missing node).
    pub closed spec fn kids(self, id: int) -> Seq<ElId> {
        if 0 <= id < self.children@.len() {
            self.children@[id]@
        } else {
            Seq::empty()
        }
    }

    /// Whether `id` is a transparent node (a missing node is not).
    pub closed spec fn transparent(self, id: int) -> bool {
        0 <= id < self.transparent@.len() && self.transparent@[id]
    }

    /// The layout of `id`, if it has one.
    pub closed spec fn data(self, id: int) -> Option<LayoutData> {
        if 0 <= id < self.layouts@.len() {
            self.layouts@[id]
        } else {
            None
        }
    }

    /// Every child is a node of the arena ranked below its parent.
    pub proof fn lemma_children_below_parent(&self, id: ElId, k: int)
        requires
            self.wf(),
            0 <= k < self.kids(id as int).len(),
        ensures
            self.below(id, self.kids(id as int)[k]),
            id < self.count(),
    {
        assert(self.children@[id as int]@[k] < self.children@.len());
    }

    /// An arena of `count` nodes without layout, children or transparency.
    pub fn new(count: usize) -> (r: Self)
        ensures
            r.wf(),
            r.count() == count,
            forall|i: int| #[trigger] r.kids(i).len() == 0,
            forall|i: int| !#[trigger] r.transparent(i),
            forall|i: int| #[trigger] r.data(i) is None,
    {
        let mut layouts: Vec<Option<LayoutData>> = Vec::new();
        let mut children: Vec<Vec<ElId>> = Vec::new();
        let mut transparent: Vec<bool> = Vec::new();
        let mut i: usize = 0;
        while i < count
            invariant
                i <= count,
                layouts@.len() == i,
                children@.len() == i,
                transparent@.len() == i,
                forall|j: int| 0 <= j < i ==> (#[trigger] children@[j])@.len() == 0,
                forall|j: int| 0 <= j < i ==> !#[trigger] transparent@[j],
                forall|j: int| 0 <= j < i ==> #[trigger] layouts@[j] is None,
            decreases count - i,
        {
            layouts.push(None);
            children.push(Vec::new());
            transparent.push(false);
            i = i + 1;
        }
        LayoutArena { layouts, children, transparent, ranks: Ghost(Seq::new(count as nat, |i: int| 0nat)) }
    }

    pub fn len(&self) -> (r: usize)
        ensures
            r == self.count(),
    {
        self.layouts.len()
    }

    /// Gives `id` the layout `layout`; `false` (and no change) if `id` is not
    /// a node.
    pub fn set_layout(&mut self, id: ElId, layout: LayoutData) -> (r: bool)
        requires
            old(self).wf(),
        ensures
            final(self).wf(),
            r == (id < old(self).count()),
            final(self).count() == old(self).count(),
            forall|i: int| #[trigger] final(self).kids(i) == old(self).kids(i),
            forall|i: int| #[trigger] final(self).transparent(i) == old(self).transparent(i),
            forall|i: int| i != id ==> #[trigger] final(self).data(i) == old(self).data(i),
            r ==> final(self).data(id as int) == Some(layout),
            !r ==> final(self).data(id as int) == old(self).data(id as int),
    {
        if id < self.layouts.len() {
            self.layouts.set(id, Some(layout));
            true
        } else {
            false
        }
    }

    /// Makes `id` transparent (or not); `false` (and no change) if `id` is not
    /// a node.
    pub fn set_transparent(&mut self, id: ElId, transparent: bool) -> (r: bool)
        requires
            old(self).wf(),
        ensures
            final(self).wf(),
            r == (id < old(self).count()),
            final(self).count() == old(self).count(),
            forall|i: int| #[trigger] final(self).kids(i) == old(self).kids(i),
            forall|i: int| #[trigger] final(self).data(i) == old(self).data(i),
            forall|i: int| i != id ==> #[trigger] final(self).transparent(i) == old(self).transparent(i),
            r ==> final(self).transparent(id as int) == transparent,
            !r ==> final(self).transparent(id as int) == old(self).transparent(id as int),
    {
        if id < self.transparent.len() {
            self.transparent.set(id, transparent);
            true
        } else {
            false
        }
    }

    /// Gives `id` the children `kids`, in order. Refused (`false`, no change)
    /// unless `id` and every child are nodes and no child is `id` or one of
    /// its ancestors (the tree would then hold a cycle).
    pub fn set_children(&mut self, id: ElId, kids: Vec<ElId>) -> (r: bool)
        requires
            old(self).wf(),
        ensures
            final(self).wf(),
            r == (id < old(self).count() && forall|k: int|
                0 <= k < kids@.len() ==> #[trigger] kids@[k] < old(self).count() && !reaches(*old(self), kids@[k], id)),
            final(self).count() == old(self).count(),
            forall|i: int| #[trigger] final(self).data(i) == old(self).data(i),
            forall|i: int| #[trigger] final(self).transparent(i) == old(self).transparent(i),
            forall|i: int| i != id ==> #[trigger] final(self).kids(i) == old(self).kids(i),
            r ==> final(self).kids(id as int) == kids@,
            !r ==> final(self).kids(id as int) == old(self).kids(id as int),
    {
        let n = self.layouts.len();
        if id >= n {
            return false;
        }
        let mut k: usize = 0;
        while k < kids.len()
            invariant
                self.wf(),
                n == self.count(),
                k <= kids@.len(),
                forall|j: int| 0 <= j < k ==> #[trigger] kids@[j] < n && !reaches(*self, kids@[j], id),
            decreases kids@.len() - k,
        {
            if kids[k] >= n || self.reaches_node(kids[k], id) {
                return false;
            }
            k = k + 1;
        }
        let ghost before = *self;
        let ghost bound: nat = rank_sum(before, kids@) + 1;
        let ghost ranks = Seq::new(
            n as nat,
            |x: int|
                if reaches(before, x as ElId, id) {
                    before.ranks@[x] + bound
                } else {
                    before.ranks@[x]
                },
        );
        self.children.set(id, kids);
        self.ranks = Ghost(ranks);
        proof {
            assert(reaches(before, id, id));
            assert forall|i: int, k: int|
                0 <= i < self.children@.len() && 0 <= k < self.children@[i]@.len() implies #[trigger] self.children@[i]@[k]
                < self.children@.len() && self.ranks@[self.children@[i]@[k] as int] < self.ranks@[i] by {
                let v = self.children@[i]@[k];
                if i == id {
                    assert(v == kids@[k]);
                    lemma_rank_sum(before, kids@, k);
                    assert(!reaches(before, v, id));
                } else {
                    assert(v == before.children@[i]@[k]);
                    assert(v < n && before.ranks@[v as int] < before.ranks@[i]);
                    assert(before.kids(i)[k] == v);
                    if reaches(before, v, id) {
                        assert(0 <= i < n);
                        let pi = i as ElId;
                        assert(pi as int == i);
                        before.lemma_children_below_parent(pi, k);
                        lemma_reaches_through(before, pi, k, id);
                    }
                }
            }
        }
        true
    }

    /// Whether `to` is `from` or lies below it.
    fn reaches_node(&self, from: ElId, to: ElId) -> (r: bool)
        requires
            self.wf(),
            from < self.count(),
        ensures
            r == reaches(*self, from, to),
        decreases self.rank(from as int),
    {
        if from == to {
            return true;
        }
        let kids = &self.children[from];
        let mut k: usize = 0;
        while k < kids.len()
            invariant
                self.wf(),
                from < self.count(),
                from != to,
                kids@ == self.kids(from as int),
                k <= kids@.len(),
                !reaches_via(*self, from, to, k as int),
            decreases kids@.len() - k,
        {
            proof {
                self.lemma_children_below_parent(from, k as int);
            }
            if self.reaches_node(kids[k], to) {
                assert(self.below(from, self.kids(from as int)[k as int]));
                proof {
                    lemma_reaches_through(*self, from, k as int, to);
                }
                return true;
            }
            k = k + 1;
        }
        false
    }
}

/// Whether `to` is `from` or lies below it in `t`, going down from parent
/// to child.
pub open spec fn reaches(t: LayoutArena, from: ElId, to: ElId) -> bool
    decreases t.rank(from as int), t.kids(from as int).len() + 1,
{
    from == to || reaches_via(t, from, to, t.kids(from as int).len() as int)
}

/// Whether `to` lies at or below one of the first `k` children of `from`.
pub open spec fn reaches_via(t: LayoutArena, from: ElId, to: ElId, k: int) -> bool
    decreases t.rank(from as int), if k > 0 { k } else { 0 },
{
    if k <= 0 || k > t.kids(from as int).len() {
        false
    } else {
        let c = t.kids(from as int)[k - 1];
        reaches_via(t, from, to, k - 1) || (t.below(from, c) && reaches(t, c, to))
    }
}

/// A node reaches what its children reach.
proof fn lemma_reaches_through(t: LayoutArena, from: ElId, k: int, to: ElId)
    requires
        0 <= k < t.kids(from as int).len(),
        t.below(from, t.kids(from as int)[k]),
        reaches(t, t.kids(from as int)[k], to),
    ensures
        reaches(t, from, to),
{
    lemma_reaches_via(t, from, to, k, t.kids(from as int).len() as int);
}

proof fn lemma_reaches_via(t: LayoutArena, from: ElId, to: ElId, k: int, n: int)
    requires
        0 <= k < n <= t.kids(from as int).len(),
        t.below(from, t.kids(from as int)[k]),
        reaches(t, t.kids(from as int)[k], to),
    ensures
        reaches_via(t, from, to, n),
    decreases n,
{
    if k < n - 1 {
        lemma_reaches_via(t, from, to, k, n - 1);
    }
}

/// One more than each rank of `s`, added up.
spec fn rank_sum(t: LayoutArena, s: Seq<ElId>) -> nat
    decreases s.len(),
{
    if s.len() == 0 {
        0
    } else {
        rank_sum(t, s.drop_last()) + t.rank(s.last() as int) + 1
    }
}

proof fn lemma_rank_sum(t: LayoutArena, s: Seq<ElId>, k: int)
    requires
        0 <= k < s.len(),
    ensures
        t.rank(s[k] as int) < rank_sum(t, s),
    decreases s.len(),
{
    if k < s.len() - 1 {
        lemma_rank_sum(t, s.drop_last(), k);
        assert(s.drop_last()[k] == s[k]);
    }
}

/// What `id` stands for in its parent's child list: itself, or for a
/// transparent node what its single child stands for; nothing for a
/// transparent node that does not wrap exactly one child.
pub open spec fn spec_push_effective(t: LayoutArena, id: ElId) -> Seq<ElId>
    decreases t.rank(id as int),
{
    if t.transparent(id as int) {
        let kids = t.kids(id as int);
        if kids.len() == 1 && t.below(id, kids[0]) {
            spec_push_effective(t, kids[0])
        } else {
            Seq::empty()
        }
    } else {
        seq![id]
    }
}

/// What the child list `kids` stands for, each transparent child flattened.
pub open spec fn spec_effective_from(t: LayoutArena, kids: Seq<ElId>) -> Seq<ElId>
    decreases kids.len(),
{
    if kids.len() == 0 {
        Seq::empty()
    } else {
        spec_effective_from(t, kids.drop_last()) + spec_push_effective(t, kids.last())
    }
}

/// The effective children of `id`.
pub open spec fn spec_effective_children(t: LayoutArena, id: ElId) -> Seq<ElId> {
    spec_effective_from(t, t.kids(id as int))
}

/// A node that stands for exactly one real node: a plain node, or a
/// transparent node wrapping exactly one such node.
pub open spec fn well_wrapped(t: LayoutArena, id: ElId) -> bool
    decreases t.rank(id as int),
{
    if t.transparent(id as int) {
        let kids = t.kids(id as int);
        kids.len() == 1 && t.below(id, kids[0]) && well_wrapped(t, kids[0])
    } else {
        true
    }
}

fn push_effective(tree: &LayoutArena, id: ElId, out: &mut Vec<ElId>)
    requires
        tree.wf(),
    ensures
        final(out)@ == old(out)@ + spec_push_effective(*tree, id),
    decreases tree.rank(id as int),
{
    if tree.is_transparent(id) {
        let children = tree.children(id);
        if children.len() == 1 {
            proof {
                tree.lemma_children_below_parent(id, 0);
            }
            push_effective(tree, children[0], out);
        } else {
            assert(old(out)@ + Seq::<ElId>::empty() == old(out)@);
        }
    } else {
        out.push(id);
    }
}

/// The effective layout children of `id`: its children with every
/// transparent child replaced by that child's own single effective child,
/// recursively. A transparent node that does not have exactly one child
/// contributes nothing.
pub fn effective_children(tree: &LayoutArena, id: ElId) -> (r: Vec<ElId>)
    requires
        tree.wf(),
    ensures
        r@ == spec_effective_children(*tree, id),
{
    let children = tree.children(id);
    let mut out: Vec<ElId> = Vec::new();
    let mut i: usize = 0;
    while i < children.len()
        invariant
            tree.wf(),
            children@ == tree.kids(id as int),
            i <= children@.len(),
            out@ == spec_effective_from(*tree, children@.take(i as int)),
        decreases children@.len() - i,
    {
        assert(children@.take(i + 1).drop_last() == children@.take(i as int));
        push_effective(tree, children[i], &mut out);
        i = i + 1;
    }
    assert(children@.take(children@.len() as int) == children@);
    out
}

/// The single effective child of a one-child node; `None` unless there is
/// exactly one.
pub fn effective_single_child(tree: &LayoutArena, id: ElId) -> (r: Option<ElId>)
    requires
        tree.wf(),
    ensures
        spec_effective_children(*tree, id).len() == 1 ==> r == Some(spec_effective_children(*tree, id)[0]),
        spec_effective_children(*tree, id).len() != 1 ==> r is None,
{
    let eff = effective_children(tree, id);
    if eff.len() == 1 {
        Some(eff[0])
    } else {
        None
    }
}

/// A node stands for nodes below it (or itself), none of them transparent.
pub proof fn lemma_push_effective_real(t: LayoutArena, id: ElId)
    requires
        t.wf(),
    ensures
        forall|k: int|
            0 <= k < spec_push_effective(t, id).len() ==> (spec_push_effective(t, id)[k] == id || t.below(
                id,
                #[trigger] spec_push_effective(t, id)[k],
            )) && !t.transparent(spec_push_effective(t, id)[k] as int),
        well_wrapped(t, id) ==> spec_push_effective(t, id).len() == 1,
        spec_push_effective(t, id).len() <= 1,
        spec_push_effective(t, id).len() == 1 && id < t.count() ==> spec_push_effective(t, id)[0] < t.count(),
    decreases t.rank(id as int),
{
    if t.transparent(id as int) {
        let kids = t.kids(id as int);
        if kids.len() == 1 && t.below(id, kids[0]) {
            lemma_push_effective_real(t, kids[0]);
        }
    }
}

/// The effective children of a list all lie below `lo` and are real
/// (non-transparent) nodes of the arena.
pub proof fn lemma_effective_from_real(t: LayoutArena, kids: Seq<ElId>, lo: ElId)
    requires
        t.wf(),
        forall|k: int| 0 <= k < kids.len() ==> t.below(lo, #[trigger] kids[k]),
    ensures
        forall|k: int|
            0 <= k < spec_effective_from(t, kids).len() ==> t.below(lo, #[trigger] spec_effective_from(t, kids)[k]
               ) && !t.transparent(spec_effective_from(t, kids)[k] as int),
        spec_effective_from(t, kids).len() <= kids.len(),
        (forall|k: int| 0 <= k < kids.len() ==> well_wrapped(t, #[trigger] kids[k])) ==> spec_effective_from(t, kids).len() == kids.len(),
    decreases kids.len(),
{
    if kids.len() > 0 {
        lemma_effective_from_real(t, kids.drop_last(), lo);
        lemma_push_effective_real(t, kids.last());
        let a = spec_effective_from(t, kids.drop_last());
        let b = spec_push_effective(t, kids.last());
        assert forall|k: int| 0 <= k < (a + b).len() implies t.below(lo, #[trigger] (a + b)[k])
            && !t.transparent((a + b)[k] as int) by {
            if k >= a.len() {
                assert((a + b)[k] == b[k - a.len()]);
            }
        }
        if forall|k: int| 0 <= k < kids.len() ==> well_wrapped(t, #[trigger] kids[k]) {
            assert(well_wrapped(t, kids.last()));
            assert forall|k: int| 0 <= k < kids.drop_last().len() implies well_wrapped(t, #[trigger] kids.drop_last()[k]) by {
                assert(kids.drop_last()[k] == kids[k]);
            }
        }
    }
}

/// The effective children of `id` are real nodes below it. When every child
/// wraps exactly one real node, there is one effective child per child:
/// the tree and model child counts stay equal.
pub proof fn lemma_effective_children(t: LayoutArena, id: ElId)
    requires
        t.wf(),
    ensures
        forall|k: int|
            0 <= k < spec_effective_children(t, id).len() ==> t.below(id, #[trigger] spec_effective_children(t, id)[k]
               ) && !t.transparent(spec_effective_children(t, id)[k] as int),
        spec_effective_children(t, id).len() <= t.kids(id as int).len(),
        (forall|k: int| 0 <= k < t.kids(id as int).len() ==> well_wrapped(t, #[trigger] t.kids(id as int)[k]))
            ==> spec_effective_children(t, id).len() == t.kids(id as int).len(),
{
    assert forall|k: int| 0 <= k < t.kids(id as int).len() implies t.below(id, #[trigger] t.kids(id as int)[k]) by {
        t.lemma_children_below_parent(id, k);
    }
    lemma_effective_from_real(t, t.kids(id as int), id);
}

/// Plain children pass through unchanged.
pub proof fn lemma_plain_children_pass_through(t: LayoutArena, kids: Seq<ElId>)
    requires
        forall|k: int| 0 <= k < kids.len() ==> !t.transparent(#[trigger] kids[k] as int),
    ensures
        spec_effective_from(t, kids) == kids,
    decreases kids.len(),
{
    if kids.len() > 0 {
        lemma_plain_children_pass_through(t, kids.drop_last());
        assert(kids.drop_last() + seq![kids.last()] == kids);
    }
}

impl LayoutTree for LayoutArena {
    fn layout(&self, id: ElId) -> (r: Option<&LayoutData>)
        ensures
            r is Some <==> self.data(id as int) is Some,
            r is Some ==> *r->Some_0 == self.data(id as int)->Some_0,
    {
        if id < self.layouts.len() {
            self.layouts[id].as_ref()
        } else {
            None
        }
    }

    fn children(&self, id: ElId) -> (r: &[ElId])
        ensures
            r@ == self.kids(id as int),
    {
        if id < self.children.len() {
            self.children[id].as_slice()
        } else {
            &[]
        }
    }

    fn is_transparent(&self, id: ElId) -> (r: bool)
        ensures
            r == self.transparent(id as int),
    {
        id < self.transparent.len() && self.transparent[id]
    }
}

} // verus!
