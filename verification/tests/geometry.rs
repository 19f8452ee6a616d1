use rsact_ui::geometry::{Padding, Point, Rect};
use rsact_ui::layout::axis::{Anchor, Axis};
use rsact_ui::layout::size::{Length, Size, UnitV1, UnitV2};
use rsact_ui::layout::{FlexLayout, LayoutData, LayoutKind};
use rsact_ui::render::hex_channels;
use rsact_ui::render::primitives::arc::Arc;
use rsact_ui::render::primitives::circle::Circle;
use rsact_ui::render::primitives::line::Line;
use rsact_ui::render::primitives::polygon::Polygon;
use rsact_ui::utils::lerpi;
use rsact_ui::value::RangeU8;

fn rect(x: i32, y: i32, w: u32, h: u32) -> Rect {
    Rect::new(Point::new(x, y), Size::new(w, h))
}

#[test]
fn union_is_the_bounding_box_of_both() {
    assert_eq!(rect(0, 0, 10, 10).union(&rect(5, 20, 10, 10)), rect(0, 0, 15, 30));
    assert_eq!(rect(-5, 3, 2, 2).union(&rect(0, 0, 1, 1)), rect(-5, 0, 6, 5));
    assert_eq!(rect(1, 1, 4, 4).union(&rect(2, 2, 1, 1)), rect(1, 1, 4, 4));
}

#[test]
fn union_saturates_its_size() {
    let a = rect(i32::MIN, 0, u32::MAX, 1);
    let b = rect(i32::MAX, 0, u32::MAX, 1);
    assert_eq!(a.union(&b).size.width, u32::MAX);
}

#[test]
fn resized_width_keeps_the_anchored_edge() {
    let r = rect(20, 20, 10, 20);
    assert_eq!(r.resized_axis(Axis::X, 20, Anchor::Center), rect(15, 20, 20, 20));
    assert_eq!(r.resized_axis(Axis::X, 20, Anchor::Start), rect(20, 20, 20, 20));
    assert_eq!(r.resized_axis(Axis::X, 20, Anchor::End), rect(10, 20, 20, 20));
    assert_eq!(r.resized_axis(Axis::X, 13, Anchor::Center), rect(19, 20, 13, 20));
}

#[test]
fn resized_height_keeps_the_anchored_edge() {
    let r = rect(20, 20, 10, 20);
    assert_eq!(r.resized_axis(Axis::Y, 10, Anchor::Center), rect(20, 25, 10, 10));
    assert_eq!(r.resized_axis(Axis::Y, 10, Anchor::End), rect(20, 30, 10, 10));
    assert_eq!(r.resized_axis(Axis::Y, 0, Anchor::End), rect(20, 39, 10, 0));
}

#[test]
fn center_offset_between_rectangles() {
    assert_eq!(rect(0, 0, 10, 10).center_offset_of(rect(2, 2, 4, 4)), Point::new(1, 1));
    assert_eq!(rect(0, 0, 0, 0).center_offset_of(rect(3, 3, 1, 1)), Point::new(-3, -3));
}

#[test]
fn rect_contains_is_half_open() {
    let r = rect(0, 0, 2, 2);
    assert!(r.contains(Point::new(1, 1)));
    assert!(!r.contains(Point::new(2, 1)));
    assert!(!rect(0, 0, 0, 5).contains(Point::new(0, 0)));
}

#[test]
fn polygon_bounding_box_and_containment() {
    let square = Polygon::new(vec![Point::new(0, 0), Point::new(10, 0), Point::new(10, 10), Point::new(0, 10)]);
    assert_eq!(square.bounding_box(), rect(0, 0, 10, 10));
    assert_eq!(square.contains_checked(Point::new(5, 5)), Some(true));
    assert_eq!(square.contains_checked(Point::new(15, 5)), Some(false));
    let huge = Polygon::new(vec![Point::new(i32::MIN, 0), Point::new(i32::MAX, 0), Point::new(0, i32::MAX)]);
    assert_eq!(huge.contains_checked(Point::new(0, 1)), None);
    let moved = square.translate(Point::new(1, -1));
    assert_eq!(moved.bounding_box(), rect(1, -1, 10, 10));
}

#[test]
fn line_bounding_box_starts_at_the_start() {
    let line = Line::new(Point::new(5, 5), Point::new(1, 8));
    assert_eq!(line.bounding_box(), rect(5, 5, 4, 3));
    assert_eq!(line.len_sq(), 25);
}

#[test]
fn circle_and_arc_boxes_and_moves() {
    let c = Circle::new(Point::new(1, 2), 7);
    assert_eq!(c.bounding_box(), rect(1, 2, 7, 7));
    assert_eq!(c.translate(Point::new(3, 3)).top_left, Point::new(4, 5));
    let angle = embedded_graphics::geometry::Angle::from_degrees(90.0);
    let mut a = Arc::new(Point::new(0, 0), 4, angle, angle);
    a.translate_mut(Point::new(-1, 1));
    assert_eq!(a.bounding_box(), rect(-1, 1, 4, 4));
}

#[test]
fn hex_reads_the_masked_channels() {
    assert_eq!(hex_channels(0xffffff), (0x00, 0xc0, 0xff));
    assert_eq!(hex_channels(0x123456), (0x00, 0x40, 0x56));
}

#[test]
fn each_mirror_lists_the_four_quadrants() {
    assert_eq!(
        Point::new(2, 3).each_mirror(),
        [Point::new(2, 3), Point::new(-2, 3), Point::new(2, -3), Point::new(-2, -3)]
    );
}

#[test]
fn expect_flex_mut_changes_the_flex_in_place() {
    let mut data = LayoutData::new(LayoutKind::Flex(FlexLayout::base(Axis::X)), Size::<Length>::shrink());
    data.expect_flex_mut().wrap = true;
    match data.kind {
        LayoutKind::Flex(f) => assert!(f.wrap),
        _ => unreachable!(),
    }
}

#[test]
fn padding_size_saturates() {
    assert_eq!(Padding::new(1, 2, 3, 4).size(), Size::new(6, 4));
    assert_eq!(Padding::new(0, u32::MAX, 0, 1).size(), Size::new(u32::MAX, 0));
}

#[test]
fn lerp_between_ends() {
    assert_eq!(lerpi(10, 20, 0, 4), 10);
    assert_eq!(lerpi(10, 20, 4, 4), 20);
    assert_eq!(lerpi(10, 20, 1, 4), 12);
    assert_eq!(lerpi(10, 20, 9, 4), 20);
}

#[test]
fn range_values_are_clamped() {
    let v: RangeU8<10, 20, 1> = RangeU8::new_clamped(5);
    assert_eq!(v.0, 10);
    assert_eq!(v.offset(100).0, 20);
    assert_eq!(v.offset(-100).0, 10);
    assert_eq!(RangeU8::<10, 20, 1>::from_i64(15).0, 15);
}

#[test]
fn unit_vectors_scale_and_negate() {
    let v = UnitV2::new(1, -1);
    assert_eq!(v.scale(3), Point::new(3, -3));
    assert_eq!(UnitV1::from(-5).value(), -1);
    assert_eq!(UnitV1::from(0).value(), 0);
}

#[test]
fn size_from_a_pair() {
    assert_eq!(Size::from((3u32, 4u32)), Size::new(3, 4));
    assert_eq!(Size::<u32>::from((0, 7)).height, 7);
}
