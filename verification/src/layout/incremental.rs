//! Relayout after a change: a previous layout and the nodes marked dirty
//! since it was made give the layout of the changed tree.
//!
//! The result is the layout a full pass over the changed tree gives. Laying
//! out again only the dirty nodes, and their ancestors while their size
//! changes, does not keep that: a parent reads more of a child than its
//! outer size and smallest size (whether it is fluid, its lengths, the
//! smallest size of its content along a fixed length), so a walk that stops
//! where those two stay can keep a line or a share that a full pass changes.
//! Every change is therefore laid out again from the root's kept inputs.
use crate::layout::model::{laid_out, laid_out_in, lemma_laid_out_keeps_inputs, lemma_laid_out_unique, model_layout, LayoutModel};
use crate::layout::limits::Limits;
use crate::layout::size::{Length, Size};
use crate::layout::tree::{ElId, LayoutArena};
use vstd::prelude::*;

verus! {

/// `a` and `b` are the same tree: identities, rectangles and retained
/// inputs, node by node.
pub open spec fn identical(a: LayoutModel, b: LayoutModel) -> bool
    decreases a,
{
    &&& a.id == b.id
    &&& a.outer == b.outer
    &&& a.inner == b.inner
    &&& a.retained == b.retained
    &&& a.children@.len() == b.children@.len()
    &&& forall|i: int| 0 <= i < a.children@.len() ==> identical(#[trigger] a.children@[i], b.children@[i])
}

/// A copy of `m`, node by node.
fn copy_model(m: &LayoutModel) -> (r: LayoutModel)
    ensures
        identical(r, *m),
    decreases m,
{
    let mut children: Vec<LayoutModel> = Vec::new();
    let mut i: usize = 0;
    while i < m.children.len()
        invariant
            i <= m.children@.len(),
            children@.len() == i,
            forall|k: int| 0 <= k < i ==> identical(#[trigger] children@[k], m.children@[k]),
        decreases m.children@.len() - i,
    {
        let c = copy_model(&m.children[i]);
        children.push(c);
        i = i + 1;
    }
    LayoutModel { id: m.id, outer: m.outer, inner: m.inner, children, retained: m.retained }
}

/// `r` is the whole tree `m` laid out again from its root's retained
/// inputs, or a copy of `m` where the root has none.
pub open spec fn rebuilt(t: LayoutArena, m: LayoutModel, r: LayoutModel) -> bool {
    match m.retained {
        Some(ret) => laid_out_in(t, m.id, ret.parent_limits, ret.parent_size, r),
        None => identical(r, m),
    }
}

/// Lays the whole tree out again from the root's retained inputs; nothing
/// changes if the root has none.
fn rebuild_root(result: &mut LayoutModel, tree: &LayoutArena)
    requires
        tree.wf(),
    ensures
        rebuilt(*tree, *old(result), *final(result)),
{
    proof {
        lemma_identical_refl(*result);
    }
    match result.retained {
        Some(r) => {
            *result = model_layout(tree, result.id, r.parent_limits, r.parent_size);
        },
        None => {},
    }
}

/// Lays out again, starting from the previous layout `prev`, the tree in
/// which the nodes `dirty` changed.
///
/// With no dirty node the result is a copy of `prev`. Otherwise it is the
/// whole tree laid out again in the limits and lengths the root of `prev`
/// was laid out in (or `prev` if its root kept none), which is the layout a
/// full pass over the changed tree gives.
pub fn relayout_incremental(prev: &LayoutModel, dirty: &[ElId], tree: &LayoutArena) -> (r: LayoutModel)
    requires
        tree.wf(),
    ensures
        dirty@.len() == 0 ==> identical(r, *prev),
        dirty@.len() > 0 ==> rebuilt(*tree, *prev, r),
{
    let mut result = copy_model(prev);
    if dirty.len() > 0 {
        proof {
            lemma_identical_rebuilt(*tree, result, *prev);
        }
        let ghost copied = result;
        rebuild_root(&mut result, tree);
        proof {
            if prev.retained is None {
                lemma_identical_trans(result, copied, *prev);
            }
        }
    }
    result
}

/// Every tree is identical to itself.
proof fn lemma_identical_refl(a: LayoutModel)
    ensures
        identical(a, a),
    decreases a,
{
    assert forall|i: int| 0 <= i < a.children@.len() implies identical(#[trigger] a.children@[i], a.children@[i]) by {
        lemma_identical_refl(a.children@[i]);
    }
}

/// Identical to identical is identical.
proof fn lemma_identical_trans(a: LayoutModel, b: LayoutModel, c: LayoutModel)
    requires
        identical(a, b),
        identical(b, c),
    ensures
        identical(a, c),
    decreases a,
{
    assert forall|i: int| 0 <= i < a.children@.len() implies identical(#[trigger] a.children@[i], c.children@[i]) by {
        lemma_identical_trans(a.children@[i], b.children@[i], c.children@[i]);
    }
}

/// The root of a copy kept the same inputs.
proof fn lemma_identical_rebuilt(t: LayoutArena, a: LayoutModel, b: LayoutModel)
    requires
        identical(a, b),
    ensures
        a.id == b.id,
        a.retained == b.retained,
{
}

/// The nodes `m` and `root` are one, laid out in the limits `l` inside a
/// parent of lengths `p`.
pub open spec fn root_kept(m: LayoutModel, root: ElId, l: Limits, p: Size<Length>) -> bool {
    &&& m.id == root
    &&& m.retained matches Some(kept) && kept.parent_limits == l && kept.parent_size == p
}

/// A relayout after a change is a full layout of the changed tree: if `prev`
/// is a layout of the root `root` of the tree `t0` in the limits `l` and
/// lengths `p`, the whole tree laid out again from `prev` in the changed
/// tree `t1` (what `relayout_incremental` gives for any non-empty set of
/// dirty nodes) is a layout of `t1`'s root in the same inputs, identical to
/// every other one, whatever changed between the two trees.
pub proof fn lemma_incremental_is_full(
    t0: LayoutArena,
    t1: LayoutArena,
    root: ElId,
    l: Limits,
    p: Size<Length>,
    prev: LayoutModel,
    r: LayoutModel,
)
    requires
        t1.wf(),
        !t0.transparent(root as int),
        laid_out(t0, root) is Some,
        laid_out_in(t0, root, l, p, prev),
        rebuilt(t1, prev, r),
    ensures
        root_kept(prev, root, l, p),
        laid_out_in(t1, root, l, p, r),
        forall|full: LayoutModel| #[trigger] laid_out_in(t1, root, l, p, full) ==> identical(r, full),
{
    lemma_laid_out_keeps_inputs(t0, root, l, p, prev);
    assert forall|full: LayoutModel| #[trigger] laid_out_in(t1, root, l, p, full) implies identical(r, full) by {
        lemma_laid_out_unique(t1, root, l, p, r, full);
    }
}

} // verus!
