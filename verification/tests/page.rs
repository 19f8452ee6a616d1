use rsact_ui::layout::axis::Axis;
use rsact_ui::layout::limits::Limits;
use rsact_ui::layout::model::model_layout;
use rsact_ui::layout::size::{Length, Size};
use rsact_ui::layout::tree::LayoutArena;
use rsact_ui::layout::{FlexLayout, LayoutData, LayoutKind};
use rsact_ui::page::compute_layout;

fn page(root_size: Size<Length>) -> LayoutArena {
    let mut tree = LayoutArena::new(4);
    assert!(tree.set_layout(2, LayoutData::edge(Size::<Length>::fixed_length(10, 10))));
    assert!(tree.set_layout(3, LayoutData::edge(Size::<Length>::fixed_length(10, 10))));
    assert!(tree.set_layout(1, LayoutData::new(LayoutKind::Flex(FlexLayout::base(Axis::Y)), root_size)));
    assert!(tree.set_children(1, vec![2, 3]));
    tree
}

#[test]
fn first_layout_is_a_full_one_and_redraws_everything() {
    let tree = page(Size::<Length>::fixed_length(100, 100));
    let viewport = Size::new(120, 80);
    let r = compute_layout(&tree, 1, viewport, None, &[], false);
    assert_eq!(r.layout, model_layout(&tree, 1, Limits::only_max(viewport), viewport.into()));
    assert!(r.blanket);
    assert!(r.redraw.is_empty());
}

#[test]
fn a_dirty_leaf_redraws_only_its_stable_parent() {
    let mut tree = page(Size::<Length>::fixed_length(100, 100));
    let viewport = Size::new(120, 120);
    let prev = compute_layout(&tree, 1, viewport, None, &[], false).layout;
    assert!(tree.set_layout(2, LayoutData::edge(Size::<Length>::fixed_length(10, 30))));
    let r = compute_layout(&tree, 1, viewport, Some(&prev), &[2], false);
    assert!(!r.blanket);
    assert_eq!(r.redraw, vec![1]);
    assert_eq!(r.layout, model_layout(&tree, 1, Limits::only_max(viewport), viewport.into()));
    assert_eq!(r.layout.children[1].outer.top_left.y, 30);
}

#[test]
fn a_full_mark_or_a_growing_root_redraws_everything() {
    let mut tree = page(Size::<Length>::shrink());
    let viewport = Size::new(120, 120);
    let prev = compute_layout(&tree, 1, viewport, None, &[], false).layout;
    assert!(tree.set_layout(2, LayoutData::edge(Size::<Length>::fixed_length(10, 30))));
    let grown = compute_layout(&tree, 1, viewport, Some(&prev), &[2], false);
    assert!(grown.blanket, "the shrinking root grew");
    assert!(grown.redraw.is_empty());
    assert_eq!(grown.layout.outer.size, Size::new(10, 40));
    let full = compute_layout(&tree, 1, viewport, Some(&prev), &[2], true);
    assert!(full.blanket);
    assert_eq!(full.layout, model_layout(&tree, 1, Limits::only_max(viewport), viewport.into()));
}
