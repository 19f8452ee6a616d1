use rsact_ui::layout::axis::Axis;
use rsact_ui::layout::flex::flex_content_size;
use rsact_ui::layout::limits::Limits;
use rsact_ui::layout::size::{Length, Size};
use rsact_ui::layout::ContentSizing;

fn sizing(min: u32, max: u32, line_height: u32) -> ContentSizing {
    ContentSizing { min_content: min, max_content: max, line_height }
}

// One line at or above the unwrapped width, two lines below it.
fn height_for_width(unwrapped: u32, line_height: u32) -> impl Fn(u32) -> u32 {
    move |width| if width >= unwrapped { line_height } else { line_height * 2 }
}

#[test]
fn shrink_text_takes_unwrapped_width_on_one_line() {
    let limits = Limits::only_max(Size::new(200, 100));
    let size = Size::<Length>::shrink();
    let resolved = limits.resolve_content_size(size, &sizing(20, 60, 10), height_for_width(60, 10));
    assert_eq!(resolved, Size::new(60, 10));
}

#[test]
fn fill_width_wraps_into_available_and_grows_height() {
    let limits = Limits::only_max(Size::new(40, 100));
    let mut size = Size::<Length>::shrink();
    size.set_width(Length::Div(1));
    let resolved = limits.resolve_content_size(size, &sizing(20, 60, 10), height_for_width(60, 10));
    assert_eq!(resolved, Size::new(40, 20));
}

#[test]
fn fixed_width_clamps_then_derives_wrapped_height() {
    let limits = Limits::only_max(Size::new(200, 100));
    let mut size = Size::<Length>::shrink();
    size.set_width(Length::Fixed(30));
    let resolved = limits.resolve_content_size(size, &sizing(20, 60, 10), height_for_width(60, 10));
    assert_eq!(resolved, Size::new(30, 20));
}

#[test]
fn fixed_is_clamped_up_to_min_limit() {
    let limits = Limits::new(Size::new(50, 0), Size::new(100, 100));
    let mut size = Size::<Length>::shrink();
    size.set_width(Length::Fixed(30));
    let resolved = limits.resolve_size(size, Size::<u32>::zero(), None);
    assert_eq!(resolved.width, 50);
}

#[test]
fn inverted_limits_resolve_to_min_uniformly() {
    let limits = Limits::new(Size::new(80, 0), Size::new(50, 100));
    let mut size = Size::<Length>::shrink();
    size.set_width(Length::Div(1));
    let resolved = limits.resolve_size(size, Size::<u32>::zero(), None);
    assert_eq!(resolved.width, 80);
}

#[test]
fn unlimited_keeps_shrink_content() {
    let limits = Limits::unlimited();
    let resolved = limits.resolve_size(Size::<Length>::shrink(), Size::new(12, 34), None);
    assert_eq!(resolved, Size::new(12, 34));
}

#[test]
fn exact_limits_force_the_size() {
    let limits = Limits::exact(Size::new(20, 30));
    let resolved = limits.resolve_size(Size::<Length>::fill(), Size::new(100, 1), None);
    assert_eq!(resolved, Size::new(20, 30));
}

#[test]
fn shrink_limits_by_padding() {
    let limits = Limits::new(Size::new(10, 10), Size::new(100, 50)).shrink(Size::new(20, 60));
    assert_eq!(limits.min(), Size::new(0, 0));
    assert_eq!(limits.max(), Size::new(80, 0));
}

#[test]
fn divisions_into_fixed_length() {
    assert_eq!(Length::div_into_fixed(3, 10), 30);
    assert_eq!(Length::div_into_fixed(0, 10), 0);
    assert_eq!(Length::Div(2).into_fixed(7), 14);
    assert_eq!(Length::Shrink.into_fixed(7), 7);
    assert_eq!(Length::Fixed(5).into_fixed(7), 5);
}

#[test]
fn flex_content_size_stacks_along_the_axis() {
    let a = Limits::new(Size::new(10, 5), Size::new(20, 8));
    let b = Limits::new(Size::new(3, 7), Size::new(4, 9));
    let row = flex_content_size(Axis::X, &[a, b]);
    assert_eq!(row.min, Size::new(13, 7));
    assert_eq!(row.max, Size::new(u32::MAX, u32::MAX));
    let column = flex_content_size(Axis::Y, &[a, b]);
    assert_eq!(column.min, Size::new(10, 12));
    let none = flex_content_size(Axis::X, &[]);
    assert_eq!(none, Limits::unlimited());
}
