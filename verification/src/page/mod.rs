//! Pages: what a page does with its layout when its tree changed.
pub mod id;
pub mod pointer;

use crate::layout::damage::{layout_repaint_roots, mark_all, spec_repaint_marks};
use crate::layout::incremental::{rebuilt, relayout_incremental, root_kept};
use crate::layout::limits::Limits;
use crate::layout::model::{laid_out_in, model_layout, LayoutModel};
use crate::layout::size::{Length, Size};
use crate::layout::tree::{ElId, LayoutArena};
use vstd::prelude::*;

verus! {

/// What laying a page out again gave: the new layout, whether the whole
/// viewport must be drawn again, and otherwise the nodes to draw again.
pub struct Relayout {
    pub layout: LayoutModel,
    pub blanket: bool,
    pub redraw: Vec<ElId>,
}

/// Lays out the page of root `root` in a viewport of size `viewport`.
///
/// With a previous layout `prev` and a set of dirty nodes that is neither
/// empty nor the whole tree (`full`), the tree is laid out again from the
/// inputs `prev`'s root kept (for a `prev` of this root in this viewport,
/// the full layout of the changed tree), and the nodes to draw again are the
/// repaint roots of the change, unless the root itself changed. Otherwise
/// (first layout, a change of the viewport, a change of the tree's
/// structure) the whole tree is laid out again and the whole viewport must
/// be drawn again.
pub fn compute_layout(
    tree: &LayoutArena,
    root: ElId,
    viewport: Size<u32>,
    prev: Option<&LayoutModel>,
    dirty: &[ElId],
    full: bool,
) -> (r: Relayout)
    requires
        tree.wf(),
    ensures
        (prev is Some && dirty@.len() > 0 && !full) ==> {
            &&& rebuilt(*tree, *prev->Some_0, r.layout)
            &&& root_kept(
                *prev->Some_0,
                root,
                Limits { min: Size { width: 0, height: 0 }, max: viewport },
                Size { width: Length::Fixed(viewport.width), height: Length::Fixed(viewport.height) },
            ) ==> laid_out_in(
                *tree,
                root,
                Limits { min: Size { width: 0, height: 0 }, max: viewport },
                Size { width: Length::Fixed(viewport.width), height: Length::Fixed(viewport.height) },
                r.layout,
            )
            &&& r.blanket == (prev->Some_0.outer != r.layout.outer)
            &&& r.redraw@ == (if r.blanket {
                Seq::<ElId>::empty()
            } else {
                mark_all(Seq::empty(), spec_repaint_marks(*prev->Some_0, r.layout))
            })
        },
        !(prev is Some && dirty@.len() > 0 && !full) ==> {
            &&& laid_out_in(
                *tree,
                root,
                Limits { min: Size { width: 0, height: 0 }, max: viewport },
                Size { width: Length::Fixed(viewport.width), height: Length::Fixed(viewport.height) },
                r.layout,
            )
            &&& r.blanket
            &&& r.redraw@.len() == 0
        },
{
    match prev {
        Some(p) => {
            if dirty.len() > 0 && !full {
                let new = relayout_incremental(p, dirty, tree);
                let roots = layout_repaint_roots(p, &new);
                if !roots.full {
                    return Relayout { layout: new, blanket: false, redraw: roots.roots };
                }
                return Relayout { layout: new, blanket: true, redraw: Vec::new() };
            }
        },
        None => {},
    }
    let layout = model_layout(tree, root, Limits::only_max(viewport), viewport.into());
    Relayout { layout, blanket: true, redraw: Vec::new() }
}

} // verus!
