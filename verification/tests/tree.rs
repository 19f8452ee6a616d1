use rsact_ui::layout::axis::{Axial, Axis};
use rsact_ui::geometry::Point;
use rsact_ui::layout::tree::{effective_children, ElId, LayoutArena, LayoutTree};

fn el_id(n: u64) -> ElId {
    n as ElId
}

fn arena() -> LayoutArena {
    LayoutArena::new(8)
}

#[test]
fn plain_children_pass_through() {
    let mut t = arena();
    let (p, a, b) = (el_id(1), el_id(2), el_id(3));
    assert!(t.set_children(p, vec![a, b]));
    assert_eq!(effective_children(&t, p), vec![a, b]);
}

#[test]
fn transparent_child_is_replaced_by_its_single_child() {
    let mut t = arena();
    let (p, dynamic, inner) = (el_id(1), el_id(2), el_id(3));
    assert!(t.set_children(p, vec![dynamic]));
    assert!(t.set_children(dynamic, vec![inner]));
    assert!(t.set_transparent(dynamic, true));
    assert_eq!(effective_children(&t, p), vec![inner]);
}

#[test]
fn nested_transparent_descends_to_first_real_node() {
    let mut t = arena();
    let (p, d1, d2, real) = (el_id(1), el_id(2), el_id(3), el_id(4));
    assert!(t.set_children(p, vec![d1]));
    assert!(t.set_children(d1, vec![d2]));
    assert!(t.set_children(d2, vec![real]));
    assert!(t.set_transparent(d1, true));
    assert!(t.set_transparent(d2, true));
    assert_eq!(effective_children(&t, p), vec![real]);
}

#[test]
fn transparent_among_plain_preserves_order_and_count() {
    let mut t = arena();
    let (p, a, dynamic, inner, b) = (el_id(1), el_id(2), el_id(3), el_id(4), el_id(5));
    assert!(t.set_children(p, vec![a, dynamic, b]));
    assert!(t.set_children(dynamic, vec![inner]));
    assert!(t.set_transparent(dynamic, true));
    let eff = effective_children(&t, p);
    assert_eq!(eff, vec![a, inner, b]);
    assert_eq!(eff.len(), t.children(p).len());
}

#[test]
fn malformed_transparent_degrades_to_nothing() {
    let mut t = arena();
    let (p, bad, x, y) = (el_id(1), el_id(2), el_id(3), el_id(4));
    assert!(t.set_children(p, vec![bad]));
    assert!(t.set_children(bad, vec![x, y]));
    assert!(t.set_transparent(bad, true));
    assert!(effective_children(&t, p).is_empty());
}

#[test]
fn leaf_has_no_children() {
    let t = arena();
    assert!(effective_children(&t, el_id(1)).is_empty());
}

#[test]
fn cycles_and_missing_nodes_are_refused() {
    let mut t = arena();
    assert!(!t.set_children(3, vec![3]));
    assert!(!t.set_children(3, vec![8]));
    assert!(!t.set_children(8, vec![]));
    assert!(t.children(3).is_empty());
    assert!(t.set_children(3, vec![4]));
    assert!(t.set_children(4, vec![5]));
    assert!(!t.set_children(5, vec![3]));
    assert!(!t.set_children(4, vec![3]));
    assert!(t.children(5).is_empty());
    assert_eq!(t.children(4), &[5]);
}

#[test]
fn a_child_may_be_older_than_its_parent() {
    let mut t = arena();
    assert!(t.set_children(3, vec![2]));
    assert!(t.set_children(5, vec![3, 1]));
    assert_eq!(t.children(5), &[3, 1]);
    assert_eq!(effective_children(&t, 5), vec![3, 1]);
}

#[test]
fn x() {
    let point = Point::new(100, 500);
    let axial = point.into_axial(Axis::X);
    assert_eq!(axial.main(), 100);
    assert_eq!(axial.cross(), 500);
}

#[test]
fn y() {
    let point = Point::new(100, 500);
    let axial = point.into_axial(Axis::Y);
    assert_eq!(axial.main(), 500);
    assert_eq!(axial.cross(), 100);
}
