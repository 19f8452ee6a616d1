pub mod axis;
pub mod block_model;
pub mod damage;
pub mod flex;
pub mod incremental;
pub mod limits;
pub mod model;
pub mod rect_ext;
pub mod size;
pub mod tree;

use crate::geometry::{Padding, Rect};
use crate::layout::axis::Axis;
use crate::layout::block_model::BlockModel;
use crate::layout::size::{size_text, Length, Size};
use crate::utils::{decimal, push_decimal};
use vstd::prelude::*;

verus! {

/// How wide a piece of content wants to be.
#[derive(Clone, Copy, Debug, PartialEq, Eq, Structural)]
pub struct ContentSizing {
    /// The narrowest width the content can be wrapped to.
    pub min_content: u32,
    /// The width of the content laid out on one line.
    pub max_content: u32,
    /// The height of one line.
    pub line_height: u32,
}

} // verus!

verus! {

/// Placement of content within the free space along one axis.
#[derive(Clone, Copy, Debug, PartialEq, Eq, Structural)]
pub enum Align {
    Start,
    Center,
    End,
}

impl Align {
    /// How the alignment is written out.
    pub fn to_string(&self) -> (r: String)
        ensures
            r@ == (match *self {
                Align::Start => "Start"@,
                Align::Center => "Center"@,
                Align::End => "End"@,
            }),
    {
        String::from_str(
            match self {
                Align::Start => "Start",
                Align::Center => "Center",
                Align::End => "End",
            },
        )
    }

    /// A one-character picture of the alignment along `axis`.
    pub fn display_code(&self, axis: Axis) -> (r: &'static str)
        ensures
            (*self, axis) == (Align::Start, Axis::X) ==> r@ == "<"@,
            (*self, axis) == (Align::Start, Axis::Y) ==> r@ == "^"@,
            (*self, axis) == (Align::Center, Axis::X) ==> r@ == "|"@,
            (*self, axis) == (Align::Center, Axis::Y) ==> r@ == "-"@,
            (*self, axis) == (Align::End, Axis::X) ==> r@ == ">"@,
            (*self, axis) == (Align::End, Axis::Y) ==> r@ == "V"@,
    {
        match (self, axis) {
            (Align::Start, Axis::X) => "<",
            (Align::Start, Axis::Y) => "^",
            (Align::Center, Axis::X) => "|",
            (Align::Center, Axis::Y) => "-",
            (Align::End, Axis::X) => ">",
            (Align::End, Axis::Y) => "V",
        }
    }
}

/// Leaf content with a size of its own.
#[derive(Clone, Copy, Debug, PartialEq, Eq, Structural)]
pub enum ContentLayout {
    /// An icon: a square of the given side.
    Icon(u32),
    /// Content of a fixed size.
    Fixed(Size<u32>),
}

impl ContentLayout {
    /// How the content is written out: `Icon [side]` or `Fixed [size]`.
    pub fn to_string(&self) -> (r: String)
        ensures
            r@ == (match *self {
                ContentLayout::Icon(side) => "Icon ["@ + decimal(side as nat) + "]"@,
                ContentLayout::Fixed(size) => "Fixed ["@ + size_text(size) + "]"@,
            }),
    {
        match self {
            ContentLayout::Icon(side) => {
                let mut out = String::from_str("Icon [");
                push_decimal(&mut out, *side as u64);
                out.append("]");
                out
            },
            ContentLayout::Fixed(size) => {
                let mut out = String::from_str("Fixed [");
                size.write_to(&mut out);
                out.append("]");
                out
            },
        }
    }

    pub fn icon(side: u32) -> (r: Self)
        ensures
            r == ContentLayout::Icon(side),
    {
        ContentLayout::Icon(side)
    }

    pub fn fixed(size: Size<u32>) -> (r: Self)
        ensures
            r == ContentLayout::Fixed(size),
    {
        ContentLayout::Fixed(size)
    }

    /// The size the content needs.
    pub open spec fn spec_min_size(self) -> Size<u32> {
        match self {
            ContentLayout::Icon(side) => Size { width: side, height: side },
            ContentLayout::Fixed(size) => size,
        }
    }

    pub fn min_size(&self) -> (r: Size<u32>)
        ensures
            r == self.spec_min_size(),
    {
        match self {
            ContentLayout::Icon(side) => Size::new_equal(*side),
            ContentLayout::Fixed(size) => *size,
        }
    }

    /// The content cannot wrap: it is as wide as its size on one line.
    pub open spec fn spec_content_sizing(self) -> ContentSizing {
        let s = self.spec_min_size();
        ContentSizing { min_content: s.width, max_content: s.width, line_height: s.height }
    }

    pub fn content_sizing(&self) -> (r: ContentSizing)
        ensures
            r == self.spec_content_sizing(),
    {
        let s = self.min_size();
        ContentSizing { min_content: s.width, max_content: s.width, line_height: s.height }
    }

    /// The content's height at any width is its own height.
    pub fn height_for_width(&self, width: u32) -> (r: u32)
        ensures
            r == self.spec_min_size().height,
    {
        self.min_size().height
    }
}

/// A box around a single child.
#[derive(Clone, Copy, Debug, PartialEq, Eq, Structural)]
pub struct ContainerLayout {
    pub block_model: BlockModel,
    pub horizontal_align: Align,
    pub vertical_align: Align,
}

impl ContainerLayout {
    pub fn base() -> (r: Self)
        ensures
            r.block_model == (BlockModel { border_width: 0, padding: Padding { top: 0, right: 0, bottom: 0, left: 0 } }),
            r.horizontal_align == Align::Start,
            r.vertical_align == Align::Start,
    {
        Self { block_model: BlockModel::zero(), horizontal_align: Align::Start, vertical_align: Align::Start }
    }

    pub fn block_model(self, block_model: BlockModel) -> (r: Self)
        ensures
            r == (ContainerLayout { block_model, ..self }),
    {
        let mut s = self;
        s.block_model = block_model;
        s
    }
}

/// Children laid out in lines along an axis.
#[derive(Clone, Copy, Debug, PartialEq, Eq, Structural)]
pub struct FlexLayout {
    pub wrap: bool,
    pub block_model: BlockModel,
    pub axis: Axis,
    pub gap: Size<u32>,
    pub horizontal_align: Align,
    pub vertical_align: Align,
}

impl FlexLayout {
    /// The default flex along `axis`.
    pub fn base(axis: Axis) -> (r: Self)
        ensures
            r.wrap == false,
            r.block_model == (BlockModel { border_width: 0, padding: Padding { top: 0, right: 0, bottom: 0, left: 0 } }),
            r.axis == axis,
            r.gap == Size::<u32>::zero_spec(),
            r.horizontal_align == Align::Start,
            r.vertical_align == Align::Start,
    {
        Self {
            wrap: false,
            block_model: BlockModel::zero(),
            axis,
            gap: Size::zero(),
            horizontal_align: Align::Start,
            vertical_align: Align::Start,
        }
    }

    pub fn wrap(self, wrap: bool) -> (r: Self)
        ensures
            r == (FlexLayout { wrap, ..self }),
    {
        let mut s = self;
        s.wrap = wrap;
        s
    }

    pub fn block_model(self, block_model: BlockModel) -> (r: Self)
        ensures
            r == (FlexLayout { block_model, ..self }),
    {
        let mut s = self;
        s.block_model = block_model;
        s
    }

    pub fn gap(self, gap: Size<u32>) -> (r: Self)
        ensures
            r == (FlexLayout { gap, ..self }),
    {
        let mut s = self;
        s.gap = gap;
        s
    }

    pub fn horizontal_align(self, horizontal_align: Align) -> (r: Self)
        ensures
            r == (FlexLayout { horizontal_align, ..self }),
    {
        let mut s = self;
        s.horizontal_align = horizontal_align;
        s
    }

    pub fn vertical_align(self, vertical_align: Align) -> (r: Self)
        ensures
            r == (FlexLayout { vertical_align, ..self }),
    {
        let mut s = self;
        s.vertical_align = vertical_align;
        s
    }

    /// Aligns along the flex axis.
    pub fn align_main(self, align: Align) -> (r: Self)
        ensures
            self.axis == Axis::X ==> r == (FlexLayout { horizontal_align: align, ..self }),
            self.axis == Axis::Y ==> r == (FlexLayout { vertical_align: align, ..self }),
    {
        match self.axis {
            Axis::X => self.horizontal_align(align),
            Axis::Y => self.vertical_align(align),
        }
    }

    /// Aligns across the flex axis.
    pub fn align_cross(self, align: Align) -> (r: Self)
        ensures
            self.axis == Axis::X ==> r == (FlexLayout { vertical_align: align, ..self }),
            self.axis == Axis::Y ==> r == (FlexLayout { horizontal_align: align, ..self }),
    {
        match self.axis {
            Axis::X => self.vertical_align(align),
            Axis::Y => self.horizontal_align(align),
        }
    }
}

/// A window over content that may be longer than the window.
#[derive(Clone, Copy, Debug, PartialEq, Eq, Structural)]
pub struct ScrollableLayout {}

/// What kind of box a node is.
#[derive(Debug, Clone, Copy, PartialEq, Eq, Structural)]
pub enum LayoutKind {
    Zero,
    Edge,
    Content(ContentLayout),
    Container(ContainerLayout),
    Flex(FlexLayout),
    Scrollable(ScrollableLayout),
}

/// The layout of one node: its kind, its lengths and whether it is shown.
#[derive(Debug, Clone, Copy, PartialEq, Eq, Structural)]
pub struct LayoutData {
    pub kind: LayoutKind,
    pub size: Size<Length>,
    pub shown: bool,
}

impl LayoutData {
    /// The container layout, to be changed in place.
    pub fn expect_container_mut(&mut self) -> (r: &mut ContainerLayout)
        requires
            old(self).kind is Container,
        ensures
            *r == old(self).kind->Container_0,
            final(self).kind == LayoutKind::Container(*final(r)),
            final(self).size == old(self).size,
            final(self).shown == old(self).shown,
    {
        match &mut self.kind {
            LayoutKind::Container(container) => container,
            _ => vstd::pervasive::unreached(),
        }
    }

    /// The flex layout, to be changed in place.
    pub fn expect_flex_mut(&mut self) -> (r: &mut FlexLayout)
        requires
            old(self).kind is Flex,
        ensures
            *r == old(self).kind->Flex_0,
            final(self).kind == LayoutKind::Flex(*final(r)),
            final(self).size == old(self).size,
            final(self).shown == old(self).shown,
    {
        match &mut self.kind {
            LayoutKind::Flex(flex) => flex,
            _ => vstd::pervasive::unreached(),
        }
    }

    pub fn new(kind: LayoutKind, size: Size<Length>) -> (r: Self)
        ensures
            r == (LayoutData { kind, size, shown: true }),
    {
        Self { kind, size, shown: true }
    }

    /// Nothing, of fixed size zero.
    pub fn zero() -> (r: Self)
        ensures
            r.kind == LayoutKind::Zero,
            r.size == (Size { width: Length::Fixed(0), height: Length::Fixed(0) }),
            r.shown,
    {
        Self::new(LayoutKind::Zero, Size::fixed_length(0, 0))
    }

    /// A box with lengths but no content.
    pub fn edge(size: Size<Length>) -> (r: Self)
        ensures
            r == (LayoutData { kind: LayoutKind::Edge, size, shown: true }),
    {
        Self::new(LayoutKind::Edge, size)
    }

    /// A box that shrinks to its content.
    pub fn shrink(kind: LayoutKind) -> (r: Self)
        ensures
            r == (LayoutData { kind, size: Size { width: Length::Shrink, height: Length::Shrink }, shown: true }),
    {
        Self::new(kind, Size::shrink())
    }

    pub fn is_shown(&self) -> (r: bool)
        ensures
            r == self.shown,
    {
        self.shown
    }

    pub fn show(&mut self, shown: bool)
        ensures
            *final(self) == (LayoutData { shown, ..*old(self) }),
    {
        self.shown = shown;
    }

    pub fn with_size(self, size: Size<Length>) -> (r: Self)
        ensures
            r == (LayoutData { size, ..self }),
    {
        let mut s = self;
        s.size = size;
        s
    }

    /// The box model of containers and flexes; zero for other kinds.
    pub open spec fn spec_block_model(self) -> BlockModel {
        match self.kind {
            LayoutKind::Container(c) => c.block_model,
            LayoutKind::Flex(f) => f.block_model,
            _ => BlockModel { border_width: 0, padding: Padding { top: 0, right: 0, bottom: 0, left: 0 } },
        }
    }

    pub fn block_model(&self) -> (r: BlockModel)
        ensures
            r == self.spec_block_model(),
    {
        match self.kind {
            LayoutKind::Container(c) => c.block_model,
            LayoutKind::Flex(f) => f.block_model,
            _ => BlockModel::zero(),
        }
    }

    /// Sets the border width of a container or flex; other kinds have none.
    pub fn set_border_width(&mut self, border_width: u32)
        ensures
            final(self).size == old(self).size,
            final(self).shown == old(self).shown,
            final(self).kind == (match old(self).kind {
                LayoutKind::Container(c) => LayoutKind::Container(
                    ContainerLayout { block_model: BlockModel { border_width, ..c.block_model }, ..c },
                ),
                LayoutKind::Flex(f) => LayoutKind::Flex(
                    FlexLayout { block_model: BlockModel { border_width, ..f.block_model }, ..f },
                ),
                k => k,
            }),
    {
        match self.kind {
            LayoutKind::Container(c) => {
                self.kind = LayoutKind::Container(c.block_model(c.block_model.border_width(border_width)));
            },
            LayoutKind::Flex(f) => {
                self.kind = LayoutKind::Flex(f.block_model(f.block_model.border_width(border_width)));
            },
            _ => {},
        }
    }

    /// Sets the padding of a container or flex; other kinds have none.
    pub fn set_padding(&mut self, padding: Padding)
        ensures
            final(self).size == old(self).size,
            final(self).shown == old(self).shown,
            final(self).kind == (match old(self).kind {
                LayoutKind::Container(c) => LayoutKind::Container(
                    ContainerLayout { block_model: BlockModel { padding, ..c.block_model }, ..c },
                ),
                LayoutKind::Flex(f) => LayoutKind::Flex(
                    FlexLayout { block_model: BlockModel { padding, ..f.block_model }, ..f },
                ),
                k => k,
            }),
    {
        match self.kind {
            LayoutKind::Container(c) => {
                self.kind = LayoutKind::Container(c.block_model(c.block_model.padding(padding)));
            },
            LayoutKind::Flex(f) => {
                self.kind = LayoutKind::Flex(f.block_model(f.block_model.padding(padding)));
            },
            _ => {},
        }
    }
}

/// A flex as the developer tools show it.
#[derive(Debug, Clone, Copy, PartialEq, Eq, Structural)]
pub struct DevFlexLayout {
    pub real: FlexLayout,
}

/// The kind of a node as the developer tools show it.
#[derive(Debug, Clone, Copy, PartialEq, Eq, Structural)]
pub enum DevLayoutKind {
    Zero,
    Edge,
    Content(ContentLayout),
    Container(ContainerLayout),
    Flex(DevFlexLayout),
    Scrollable(ScrollableLayout),
}

impl DevLayoutKind {
    /// The padding of a container or flex; other kinds have none.
    pub fn padding(&self) -> (r: Option<Padding>)
        ensures
            r == (match *self {
                DevLayoutKind::Container(c) => Some(c.block_model.padding),
                DevLayoutKind::Flex(f) => Some(f.real.block_model.padding),
                _ => None,
            }),
    {
        match self {
            DevLayoutKind::Zero | DevLayoutKind::Edge | DevLayoutKind::Content(_) | DevLayoutKind::Scrollable(_) => None,
            DevLayoutKind::Container(c) => Some(c.block_model.padding),
            DevLayoutKind::Flex(f) => Some(f.real.block_model.padding),
        }
    }
}

/// The lengths and kind of a node as the developer tools show it.
#[derive(Debug, Clone, Copy, PartialEq, Eq, Structural)]
pub struct DevLayout {
    pub size: Size<Length>,
    pub kind: DevLayoutKind,
}

impl DevLayout {
    pub fn new(size: Size<Length>, kind: DevLayoutKind) -> (r: Self)
        ensures
            r.size == size,
            r.kind == kind,
    {
        Self { size, kind }
    }

    /// An empty node of shrinking lengths.
    pub fn zero() -> (r: Self)
        ensures
            r.size == (Size { width: Length::Shrink, height: Length::Shrink }),
            r.kind == DevLayoutKind::Zero,
    {
        Self { size: Size::new(Length::Shrink, Length::Shrink), kind: DevLayoutKind::Zero }
    }
}

/// The node under the cursor, as the developer tools show it: its outer
/// rectangle and how many children it has. Layouts keep no lengths or kinds
/// of their nodes, so nothing more is known of it.
#[derive(Debug, Clone, Copy, PartialEq, Eq, Structural)]
pub struct DevHoveredLayout {
    pub area: Rect,
    pub children_count: usize,
}

impl DevHoveredLayout {
    /// The padding of the hovered node: not known, as layouts keep no kinds
    /// of their nodes.
    pub fn padding(&self) -> (r: Option<Padding>)
        ensures
            r is None,
    {
        None
    }

    /// How the hovered node is written out: its size, and how many children
    /// it has if it has any.
    pub fn to_string(&self) -> (r: String)
        ensures
            r@ == decimal(self.area.size.width as nat) + "x"@ + decimal(self.area.size.height as nat) + (if self.children_count
                > 0 {
                " ["@ + decimal(self.children_count as nat) + "]"@
            } else {
                Seq::empty()
            }),
    {
        let mut out = String::new();
        push_decimal(&mut out, self.area.size.width as u64);
        out.append("x");
        push_decimal(&mut out, self.area.size.height as u64);
        if self.children_count > 0 {
            out.append(" [");
            push_decimal(&mut out, self.children_count as u64);
            out.append("]");
        }
        out
    }
}

} // verus!
