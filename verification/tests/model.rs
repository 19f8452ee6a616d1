use rsact_ui::geometry::{Point, Rect};
use rsact_ui::layout::axis::Axis;
use rsact_ui::layout::incremental::relayout_incremental;
use rsact_ui::layout::damage::{layout_changed_set, layout_repaint_roots, RepaintRoots};
use rsact_ui::layout::limits::Limits;
use rsact_ui::layout::model::{model_layout, LayoutModel, LayoutModelNode};
use rsact_ui::layout::size::{Length, Size};
use rsact_ui::layout::tree::{ElId, LayoutArena};
use rsact_ui::layout::{Align, DevFlexLayout, DevHoveredLayout, DevLayoutKind, FlexLayout, LayoutData, LayoutKind};

fn el_id(n: u64) -> ElId {
    n as ElId
}

/// Deterministic SplitMix64 so any failure reproduces from its seed.
struct Rng(u64);

impl Rng {
    fn u(&mut self) -> u64 {
        self.0 = self.0.wrapping_add(0x9e3779b97f4a7c15);
        let mut z = self.0;
        z = (z ^ (z >> 30)).wrapping_mul(0xbf58476d1ce4e5b9);
        z = (z ^ (z >> 27)).wrapping_mul(0x94d049bb133111eb);
        z ^ (z >> 31)
    }

    fn range(&mut self, n: u32) -> u32 {
        (self.u() % n as u64) as u32
    }
}

fn rand_edge(rng: &mut Rng) -> LayoutData {
    LayoutData::edge(Size::<Length>::fixed_length(5 + rng.range(40), 5 + rng.range(40)))
}

/// Builds a random tree of flex containers, transparent pass-through nodes
/// and fixed-size edge leaves; collects every leaf id.
fn build(rng: &mut Rng, tree: &mut LayoutArena, next: &mut u64, depth: u32, leaves: &mut Vec<ElId>) -> ElId {
    let id = el_id(*next);
    *next += 1;
    if depth == 0 || rng.range(3) == 0 {
        assert!(tree.set_layout(id, rand_edge(rng)));
        leaves.push(id);
    } else if rng.range(4) == 0 {
        assert!(tree.set_transparent(id, true));
        assert!(tree.set_layout(id, LayoutData::zero()));
        let child = build(rng, tree, next, depth - 1, leaves);
        assert!(tree.set_children(id, vec![child]));
    } else {
        let n = 1 + rng.range(3);
        let kids: Vec<ElId> = (0..n).map(|_| build(rng, tree, next, depth - 1, leaves)).collect();
        let axis = if rng.range(2) == 0 { Axis::X } else { Axis::Y };
        let size = if rng.range(2) == 0 {
            Size::<Length>::shrink()
        } else {
            Size::<Length>::fixed_length(80 + rng.range(80), 80 + rng.range(80))
        };
        let flex = FlexLayout::base(axis).gap(Size::new_equal(rng.range(6)));
        assert!(tree.set_layout(id, LayoutData::new(LayoutKind::Flex(flex), size)));
        assert!(tree.set_children(id, kids));
    }
    id
}

/// Enough nodes for any tree `build` makes at depth 4.
fn big_arena() -> LayoutArena {
    LayoutArena::new(512)
}

fn viewport() -> Size<u32> {
    Size::new(200, 200)
}

fn layout(tree: &LayoutArena, root: ElId) -> LayoutModel {
    model_layout(tree, root, Limits::only_max(viewport()), viewport().into())
}

/// Every node's absolute outer rectangle, by the node walker.
fn flatten(node: &LayoutModelNode, out: &mut Vec<(ElId, Rect)>) {
    out.push((node.id(), node.outer));
    for c in node.children() {
        flatten(&c, out);
    }
}

fn absolute(m: &LayoutModel) -> Vec<(ElId, Rect)> {
    let mut out = Vec::new();
    flatten(&m.tree_root(), &mut out);
    out
}

fn key(r: &Rect) -> (i32, i32, u32, u32) {
    (r.top_left.x, r.top_left.y, r.size.width, r.size.height)
}

fn random_case(seed: u64) -> Option<(LayoutArena, ElId, LayoutModel, LayoutModel)> {
    let mut rng = Rng(seed.wrapping_mul(0x9e3779b97f4a7c15).wrapping_add(1));
    let mut tree = big_arena();
    let mut next = 1u64;
    let mut leaves = Vec::new();
    let root = build(&mut rng, &mut tree, &mut next, 4, &mut leaves);
    if leaves.is_empty() {
        return None;
    }
    let prev = layout(&tree, root);
    let target = leaves[rng.range(leaves.len() as u32) as usize];
    assert!(tree.set_layout(target, rand_edge(&mut rng)));
    let new = layout(&tree, root);
    Some((tree, root, prev, new))
}

#[test]
fn changed_set_empty_when_layout_unchanged() {
    let mut rng = Rng(12345);
    let mut tree = big_arena();
    let mut next = 1u64;
    let mut leaves = Vec::new();
    let root = build(&mut rng, &mut tree, &mut next, 4, &mut leaves);
    let a = layout(&tree, root);
    let b = layout(&tree, root);
    assert!(layout_changed_set(&a, &b).is_empty(), "no mutation means no geometry damage");
}

#[test]
fn changed_set_nonempty_when_a_leaf_resizes() {
    let (root, a, b) = (el_id(1), el_id(2), el_id(3));
    let mut tree = LayoutArena::new(4);
    assert!(tree.set_layout(a, LayoutData::edge(Size::<Length>::fixed_length(10, 10))));
    assert!(tree.set_layout(b, LayoutData::edge(Size::<Length>::fixed_length(10, 10))));
    let flex = LayoutKind::Flex(FlexLayout::base(Axis::Y));
    assert!(tree.set_layout(root, LayoutData::new(flex, Size::<Length>::shrink())));
    assert!(tree.set_children(root, vec![a, b]));

    let prev = layout(&tree, root);
    assert!(tree.set_layout(a, LayoutData::edge(Size::<Length>::fixed_length(10, 30))));
    let new = layout(&tree, root);

    let damage = layout_changed_set(&prev, &new);
    assert!(damage.len() >= 2, "resized leaf and shifted sibling must both be damaged, got {damage:?}");
}

#[test]
fn changed_set_matches_brute_force_diff() {
    for seed in 0u64..500 {
        let Some((_, _, prev, new)) = random_case(seed) else { continue };
        let pv = absolute(&prev);
        let nv = absolute(&new);
        let mut expected = Vec::new();
        for (id, prect) in &pv {
            let nrect = nv.iter().find(|(nid, _)| nid == id).map(|(_, r)| *r).expect("same node set");
            if *prect != nrect {
                expected.push(prect.union(&nrect));
            }
        }
        let mut got = layout_changed_set(&prev, &new);
        got.sort_by_key(key);
        expected.sort_by_key(key);
        assert_eq!(got, expected, "seed {seed}: changed-set differs from the brute-force diff");
    }
}

#[test]
fn repaint_roots_empty_when_unchanged() {
    let mut rng = Rng(999);
    let mut tree = big_arena();
    let mut next = 1u64;
    let mut leaves = Vec::new();
    let root = build(&mut rng, &mut tree, &mut next, 4, &mut leaves);
    let a = layout(&tree, root);
    let b = layout(&tree, root);
    assert_eq!(layout_repaint_roots(&a, &b), RepaintRoots::default());
}

#[test]
fn repaint_roots_marks_stable_parent_when_leaf_moves() {
    let (root, a, b) = (el_id(1), el_id(2), el_id(3));
    let mut tree = LayoutArena::new(4);
    assert!(tree.set_layout(a, LayoutData::edge(Size::<Length>::fixed_length(10, 10))));
    assert!(tree.set_layout(b, LayoutData::edge(Size::<Length>::fixed_length(10, 10))));
    let flex = LayoutKind::Flex(FlexLayout::base(Axis::Y));
    assert!(tree.set_layout(root, LayoutData::new(flex, Size::<Length>::fixed_length(100, 100))));
    assert!(tree.set_children(root, vec![a, b]));

    let prev = layout(&tree, root);
    assert!(tree.set_layout(a, LayoutData::edge(Size::<Length>::fixed_length(10, 30))));
    let new = layout(&tree, root);

    let roots = layout_repaint_roots(&prev, &new);
    assert!(!roots.full, "a fixed root does not resize, so not full");
    assert_eq!(roots.roots, vec![root], "the stable parent is the single repaint root");
}

#[test]
fn repaint_roots_full_when_shrink_root_grows() {
    let (root, a) = (el_id(1), el_id(2));
    let mut tree = LayoutArena::new(3);
    assert!(tree.set_layout(a, LayoutData::edge(Size::<Length>::fixed_length(10, 10))));
    let flex = LayoutKind::Flex(FlexLayout::base(Axis::Y));
    assert!(tree.set_layout(root, LayoutData::new(flex, Size::<Length>::shrink())));
    assert!(tree.set_children(root, vec![a]));

    let prev = layout(&tree, root);
    assert!(tree.set_layout(a, LayoutData::edge(Size::<Length>::fixed_length(10, 40))));
    let new = layout(&tree, root);

    let roots = layout_repaint_roots(&prev, &new);
    assert!(roots.full, "shrink root grew, so the whole viewport is repainted");
}

/// `inner` lies in `outer`, rectangles taken as half-open areas.
fn covers(outer: &Rect, inner: &Rect) -> bool {
    inner.is_zero_sized()
        || (inner.top_left.x >= outer.top_left.x
            && inner.top_left.y >= outer.top_left.y
            && inner.top_left.x + inner.size.width as i32 <= outer.top_left.x + outer.size.width as i32
            && inner.top_left.y + inner.size.height as i32 <= outer.top_left.y + outer.size.height as i32)
}

#[test]
fn repaint_roots_cover_all_damage() {
    for seed in 0u64..500 {
        let Some((_, _, prev, new)) = random_case(seed) else { continue };
        let roots = layout_repaint_roots(&prev, &new);
        if roots.full {
            continue;
        }
        let nv = absolute(&new);
        let root_outers: Vec<Rect> = roots
            .roots
            .iter()
            .map(|id| nv.iter().find(|(nid, _)| nid == id).map(|(_, r)| *r).expect("repaint root is a node of new"))
            .collect();
        let pv = absolute(&prev);
        for (id, prect) in &pv {
            let nrect = nv.iter().find(|(nid, _)| nid == id).map(|(_, r)| *r).expect("same node set");
            if *prect == nrect {
                continue;
            }
            for rect in [prect, &nrect] {
                assert!(
                    root_outers.iter().any(|o| covers(o, rect)),
                    "seed {seed}: changed rect {rect:?} of {id:?} not covered by any repaint root"
                );
            }
        }
    }
}

#[test]
fn changed_set_of_a_moved_root_is_the_union() {
    let mut prev = LayoutModel::zero();
    prev.outer = Rect::new(Point::new(0, 0), Size::new(10, 10));
    let mut new = LayoutModel::zero();
    new.outer = Rect::new(Point::new(5, 20), Size::new(10, 10));
    let damage = layout_changed_set(&prev, &new);
    assert_eq!(damage, vec![Rect::new(Point::new(0, 0), Size::new(15, 30))]);
    let roots = layout_repaint_roots(&prev, &new);
    assert!(roots.full);
    assert!(roots.roots.is_empty());
}

#[test]
fn appeared_and_disappeared_children_damage_their_rects() {
    let mut prev = LayoutModel::zero().with_id(1);
    let mut gone = LayoutModel::zero().with_id(2);
    gone.outer = Rect::new(Point::new(1, 1), Size::new(3, 3));
    prev.children.push(gone);
    let mut new = LayoutModel::zero().with_id(1);
    let mut appeared = LayoutModel::zero().with_id(3);
    appeared.outer = Rect::new(Point::new(4, 4), Size::new(2, 2));
    new.children.push(appeared);
    let damage = layout_changed_set(&prev, &new);
    assert_eq!(
        damage,
        vec![Rect::new(Point::new(4, 4), Size::new(2, 2)), Rect::new(Point::new(1, 1), Size::new(3, 3))]
    );
    let roots = layout_repaint_roots(&prev, &new);
    assert!(!roots.full);
    assert_eq!(roots.roots, vec![1]);
}

#[test]
fn incremental_equals_full_recompute() {
    for seed in 0u64..500 {
        let mut rng = Rng(seed.wrapping_mul(0x9e3779b97f4a7c15).wrapping_add(1));
        let mut tree = big_arena();
        let mut next = 1u64;
        let mut leaves = Vec::new();
        let root = build(&mut rng, &mut tree, &mut next, 4, &mut leaves);
        if leaves.is_empty() {
            continue;
        }
        let prev = layout(&tree, root);
        let target = leaves[rng.range(leaves.len() as u32) as usize];
        assert!(tree.set_layout(target, rand_edge(&mut rng)));
        let incremental = relayout_incremental(&prev, &[target], &tree);
        let full = layout(&tree, root);
        assert_eq!(incremental, full, "seed {seed}: incremental differs from a full recompute (target {target:?})");
    }
}

#[test]
fn incremental_without_dirty_nodes_keeps_the_layout() {
    let mut rng = Rng(7);
    let mut tree = big_arena();
    let mut next = 1u64;
    let mut leaves = Vec::new();
    let root = build(&mut rng, &mut tree, &mut next, 4, &mut leaves);
    let prev = layout(&tree, root);
    let same = relayout_incremental(&prev, &[], &tree);
    assert_eq!(same, prev);
    let unknown = relayout_incremental(&prev, &[511], &tree);
    assert_eq!(unknown, prev);
}

#[test]
fn row_places_children_one_after_another() {
    let (root, a, b) = (el_id(1), el_id(2), el_id(3));
    let mut tree = LayoutArena::new(4);
    assert!(tree.set_layout(a, LayoutData::edge(Size::<Length>::fixed_length(10, 10))));
    assert!(tree.set_layout(b, LayoutData::edge(Size::<Length>::fixed_length(5, 20))));
    let flex = FlexLayout::base(Axis::X).gap(Size::new(2, 0));
    assert!(tree.set_layout(root, LayoutData::new(LayoutKind::Flex(flex), Size::<Length>::shrink())));
    assert!(tree.set_children(root, vec![a, b]));
    let m = layout(&tree, root);
    assert_eq!(m.inner.size, Size::new(17, 20));
    assert_eq!(m.children[0].outer, Rect::new(Point::new(0, 0), Size::new(10, 10)));
    assert_eq!(m.children[1].outer, Rect::new(Point::new(12, 0), Size::new(5, 20)));
}

#[test]
fn column_aligned_to_the_end_moves_children_down() {
    let (root, a) = (el_id(1), el_id(2));
    let mut tree = LayoutArena::new(3);
    assert!(tree.set_layout(a, LayoutData::edge(Size::<Length>::fixed_length(10, 10))));
    let flex = FlexLayout::base(Axis::Y).align_main(Align::End);
    assert!(tree.set_layout(root, LayoutData::new(LayoutKind::Flex(flex), Size::<Length>::fixed_length(30, 40))));
    assert!(tree.set_children(root, vec![a]));
    let m = layout(&tree, root);
    assert_eq!(m.inner.size, Size::new(30, 40));
    assert_eq!(m.children[0].outer.top_left, Point::new(0, 30));
}

#[test]
fn wrapping_row_moves_what_does_not_fit_to_the_next_line() {
    let (root, a, b, c) = (el_id(1), el_id(2), el_id(3), el_id(4));
    let mut tree = LayoutArena::new(5);
    for id in [a, b, c] {
        assert!(tree.set_layout(id, LayoutData::edge(Size::<Length>::fixed_length(10, 10))));
    }
    let flex = FlexLayout::base(Axis::X).wrap(true).gap(Size::new(2, 3));
    assert!(tree.set_layout(root, LayoutData::new(LayoutKind::Flex(flex), Size::<Length>::fixed_length(25, 100))));
    assert!(tree.set_children(root, vec![a, b, c]));
    let m = layout(&tree, root);
    assert_eq!(m.inner.size, Size::new(25, 100));
    assert_eq!(m.children[0].outer.top_left, Point::new(0, 0));
    assert_eq!(m.children[1].outer.top_left, Point::new(12, 0));
    assert_eq!(m.children[2].outer.top_left, Point::new(0, 13));
}

#[test]
fn damage_is_empty_iff_nothing_to_repaint() {
    for seed in 0u64..200 {
        let Some((_, _, prev, new)) = random_case(seed) else { continue };
        let damage = layout_changed_set(&prev, &new);
        let roots = layout_repaint_roots(&prev, &new);
        assert_eq!(damage.is_empty(), !roots.full && roots.roots.is_empty(), "seed {seed}");
        let same = layout_changed_set(&new, &new);
        assert!(same.is_empty());
        assert_eq!(layout_repaint_roots(&new, &new), RepaintRoots::default());
    }
}

#[test]
fn fluid_children_share_the_free_space() {
    let (root, a, b, c) = (el_id(1), el_id(2), el_id(3), el_id(4));
    let mut tree = LayoutArena::new(5);
    assert!(tree.set_layout(a, LayoutData::edge(Size::new(Length::Div(1), Length::Fixed(10)))));
    assert!(tree.set_layout(b, LayoutData::edge(Size::<Length>::fixed_length(10, 10))));
    assert!(tree.set_layout(c, LayoutData::edge(Size::new(Length::Div(2), Length::Fixed(10)))));
    let flex = FlexLayout::base(Axis::X);
    assert!(tree.set_layout(root, LayoutData::new(LayoutKind::Flex(flex), Size::<Length>::fixed_length(110, 10))));
    assert!(tree.set_children(root, vec![a, b, c]));
    let m = layout(&tree, root);
    // 100 left for three divisions: 33 each, and the one left over goes to
    // the first fluid item.
    assert_eq!(m.children[0].outer, Rect::new(Point::new(0, 0), Size::new(34, 10)));
    assert_eq!(m.children[1].outer, Rect::new(Point::new(34, 0), Size::new(10, 10)));
    assert_eq!(m.children[2].outer, Rect::new(Point::new(44, 0), Size::new(66, 10)));
}

#[test]
fn dev_hover_finds_the_innermost_node_under_the_cursor() {
    let (root, a, b) = (el_id(1), el_id(2), el_id(3));
    let mut tree = LayoutArena::new(4);
    assert!(tree.set_layout(a, LayoutData::edge(Size::<Length>::fixed_length(10, 10))));
    assert!(tree.set_layout(b, LayoutData::edge(Size::<Length>::fixed_length(5, 20))));
    let flex = FlexLayout::base(Axis::X).gap(Size::new(2, 0));
    assert!(tree.set_layout(root, LayoutData::new(LayoutKind::Flex(flex), Size::<Length>::shrink())));
    assert!(tree.set_children(root, vec![a, b]));
    let m = layout(&tree, root);
    let node = m.tree_root();
    assert_eq!(
        node.dev_hover(Point::new(13, 5)),
        Some(DevHoveredLayout { area: Rect::new(Point::new(12, 0), Size::new(5, 20)), children_count: 0 })
    );
    assert_eq!(
        node.dev_hover(Point::new(11, 5)),
        Some(DevHoveredLayout { area: Rect::new(Point::new(0, 0), Size::new(17, 20)), children_count: 2 })
    );
    assert_eq!(node.dev_hover(Point::new(100, 100)), None);
    assert_eq!(node.dev_hover(Point::new(3, 3)).map(|h| h.area.size), Some(Size::new(10, 10)));
    assert_eq!(node.dev_hover(Point::new(3, 3)).and_then(|h| h.padding()), None);
}

#[test]
fn dev_layout_kind_padding_of_boxes_only() {
    let padded = FlexLayout::base(Axis::Y).block_model(rsact_ui::layout::block_model::BlockModel::zero().padding(
        rsact_ui::geometry::Padding::new_equal(3),
    ));
    assert_eq!(DevLayoutKind::Flex(DevFlexLayout { real: padded }).padding(), Some(rsact_ui::geometry::Padding::new_equal(3)));
    assert_eq!(DevLayoutKind::Edge.padding(), None);
    assert_eq!(DevLayoutKind::Zero.padding(), None);
}

#[test]
fn incremental_follows_a_fluid_items_hidden_min() {
    // A fluid item of fixed height whose content's smallest height grows:
    // its size in its kept limits and its kept smallest size (the fixed
    // height wins) stay, while a full layout makes its line as tall as the
    // content's smallest height. The relayout gives the full layout.
    let (root, a) = (el_id(1), el_id(2));
    let mut tree = LayoutArena::new(3);
    let small = LayoutKind::Content(rsact_ui::layout::ContentLayout::fixed(Size::new(5, 5)));
    assert!(tree.set_layout(a, LayoutData::new(small, Size::new(Length::Div(1), Length::Fixed(10)))));
    let flex = LayoutKind::Flex(FlexLayout::base(Axis::X));
    assert!(tree.set_layout(root, LayoutData::new(flex, Size::new(Length::Fixed(100), Length::Shrink))));
    assert!(tree.set_children(root, vec![a]));
    let prev = layout(&tree, root);
    let tall = LayoutKind::Content(rsact_ui::layout::ContentLayout::fixed(Size::new(5, 20)));
    assert!(tree.set_layout(a, LayoutData::new(tall, Size::new(Length::Div(1), Length::Fixed(10)))));
    let incremental = relayout_incremental(&prev, &[a], &tree);
    let full = layout(&tree, root);
    assert_eq!(incremental, full);
    assert_eq!(incremental.outer.size, Size::new(100, 20));
}

#[test]
fn incremental_follows_an_item_that_turns_fluid() {
    // A fixed item that becomes fluid keeps its size in its kept limits and
    // its smallest size, but now shares the free space with another fluid
    // item.
    let (root, b, a, c) = (el_id(1), el_id(2), el_id(3), el_id(4));
    let mut tree = LayoutArena::new(5);
    assert!(tree.set_layout(b, LayoutData::edge(Size::<Length>::fixed_length(40, 10))));
    assert!(tree.set_layout(a, LayoutData::edge(Size::<Length>::fixed_length(30, 10))));
    assert!(tree.set_layout(c, LayoutData::edge(Size::new(Length::Div(1), Length::Fixed(10)))));
    let flex = LayoutKind::Flex(FlexLayout::base(Axis::X));
    assert!(tree.set_layout(root, LayoutData::new(flex, Size::new(Length::Fixed(70), Length::Shrink))));
    assert!(tree.set_children(root, vec![b, a, c]));
    let prev = layout(&tree, root);
    assert_eq!(prev.children[1].outer.size, Size::new(30, 10));
    assert!(tree.set_layout(a, LayoutData::edge(Size::new(Length::Div(1), Length::Fixed(10)))));
    let incremental = relayout_incremental(&prev, &[a], &tree);
    let full = layout(&tree, root);
    assert_eq!(incremental, full);
    assert_eq!(incremental.children[1].outer.size.width, incremental.children[2].outer.size.width);
}

#[test]
fn fixed_content_change_matches_a_full_layout() {
    // A fixed-size content leaf whose content changes keeps its size: the
    // relayout gives the same geometry as before, and as a full layout.
    let (root, leaf) = (el_id(1), el_id(2));
    let mut tree = LayoutArena::new(3);
    let hello = LayoutKind::Content(rsact_ui::layout::ContentLayout::fixed(Size::new(25, 8)));
    assert!(tree.set_layout(leaf, LayoutData::new(hello, Size::<Length>::fixed_length(200, 40))));
    assert!(tree.set_layout(root, LayoutData::new(LayoutKind::Flex(FlexLayout::base(Axis::Y)), Size::<Length>::shrink())));
    assert!(tree.set_children(root, vec![leaf]));
    let vp = Size::new(300, 300);
    let prev = model_layout(&tree, root, Limits::only_max(vp), vp.into());
    let world = LayoutKind::Content(rsact_ui::layout::ContentLayout::fixed(Size::new(30, 8)));
    assert!(tree.set_layout(leaf, LayoutData::new(world, Size::<Length>::fixed_length(200, 40))));
    let incremental = relayout_incremental(&prev, &[leaf], &tree);
    let full = model_layout(&tree, root, Limits::only_max(vp), vp.into());
    assert_eq!(incremental, full);
    assert_eq!(absolute(&incremental), absolute(&prev));
    assert_eq!(incremental.children[0].outer.size, Size::new(200, 40));
}

#[test]
fn laying_out_twice_gives_the_same_geometry() {
    for seed in 0..20u64 {
        if let Some((tree, root, _, _)) = random_case(seed) {
            let a = layout(&tree, root);
            let b = layout(&tree, root);
            assert_eq!(absolute(&a), absolute(&b));
            assert_eq!(a.inner, b.inner);
        }
    }
}

#[test]
fn a_transparent_node_is_laid_out_as_its_only_child() {
    let mut tree = LayoutArena::new(4);
    assert!(tree.set_layout(3, LayoutData::edge(Size::<Length>::fixed_length(30, 20))));
    assert!(tree.set_transparent(2, true));
    assert!(tree.set_children(2, vec![3]));
    let through = layout(&tree, 2);
    let direct = layout(&tree, 3);
    assert_eq!(through.id, 3);
    assert_eq!(through.outer, direct.outer);
    assert_eq!(through.inner, direct.inner);
    assert_eq!(through.outer.size, Size::new(30, 20));
}

fn leaf_model(id: ElId, at: Point, w: u32, h: u32) -> LayoutModel {
    let r = Rect::new(at, Size::new(w, h));
    LayoutModel { id, outer: r, inner: r, children: Vec::new(), retained: None }
}

#[test]
fn repaint_roots_miss_a_child_that_leaves_its_parent() {
    let frame = Rect::new(Point::new(0, 0), Size::new(20, 20));
    let prev = LayoutModel {
        id: 1,
        outer: frame,
        inner: frame,
        children: vec![leaf_model(2, Point::new(0, 0), 10, 10)],
        retained: None,
    };
    let new = LayoutModel {
        id: 1,
        outer: frame,
        inner: frame,
        children: vec![leaf_model(2, Point::new(30, 0), 10, 10)],
        retained: None,
    };
    let roots = layout_repaint_roots(&prev, &new);
    assert!(!roots.full);
    assert_eq!(roots.roots, vec![1]);
    let moved_to = Rect::new(Point::new(30, 0), Size::new(10, 10));
    assert!(covers(&frame, &Rect::new(Point::new(0, 0), Size::new(10, 10))));
    assert!(!covers(&frame, &moved_to));
    assert_eq!(layout_changed_set(&prev, &new), vec![Rect::new(Point::new(0, 0), Size::new(40, 10))]);
}

#[test]
fn a_tree_numbered_from_the_leaves_lays_out() {
    // The children have smaller identities than their parent.
    let mut tree = LayoutArena::new(4);
    assert!(tree.set_layout(1, LayoutData::edge(Size::<Length>::fixed_length(10, 10))));
    assert!(tree.set_layout(2, LayoutData::edge(Size::<Length>::fixed_length(20, 10))));
    let row = LayoutKind::Flex(FlexLayout::base(Axis::X));
    assert!(tree.set_layout(3, LayoutData::new(row, Size::<Length>::shrink())));
    assert!(tree.set_children(3, vec![1, 2]));
    let m = layout(&tree, 3);
    assert_eq!(m.outer.size, Size::new(30, 10));
    assert_eq!(m.children[1].outer.top_left, Point::new(10, 0));
}

#[test]
fn siblings_sharing_an_identity_are_matched_to_the_first() {
    // Children are matched by identity: with two siblings of one identity,
    // both are diffed against the first, so even a layout compared with
    // itself reports the second one's rectangle as damaged.
    let frame = Rect::new(Point::new(0, 0), Size::new(40, 20));
    let m = LayoutModel {
        id: 1,
        outer: frame,
        inner: frame,
        children: vec![leaf_model(2, Point::new(0, 0), 10, 10), leaf_model(2, Point::new(20, 0), 10, 10)],
        retained: None,
    };
    assert_eq!(layout_changed_set(&m, &m), vec![Rect::new(Point::new(0, 0), Size::new(30, 10))]);
}
