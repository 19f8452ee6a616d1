//! Renderer-independent drawing styles, colors and viewports.
use crate::geometry::Rect;
use vstd::prelude::*;

pub mod arc;
pub mod line;
pub mod path;
pub mod primitives;

verus! {

/// An angle, carried through unchanged to the renderer.
#[verifier::external_type_specification]
#[verifier::external_body]
pub struct ExAngle(embedded_graphics::geometry::Angle);

/// Whether edges are drawn anti-aliased.
#[derive(PartialEq, Eq, Clone, Copy, Debug, Structural)]
pub enum AntiAliasing {
    Disabled,
    Enabled,
}

#[derive(Clone, Copy, PartialEq, Eq, Debug, Structural)]
pub struct RendererOptions {
    pub anti_aliasing: Option<AntiAliasing>,
}

impl RendererOptions {
    pub fn new() -> (r: Self)
        ensures
            r.anti_aliasing == None::<AntiAliasing>,
    {
        Self { anti_aliasing: None }
    }

    pub fn anti_aliasing(self, aa: AntiAliasing) -> (r: Self)
        ensures
            r.anti_aliasing == Some(aa),
    {
        let mut s = self;
        s.anti_aliasing = Some(aa);
        s
    }
}

impl Default for RendererOptions {
    fn default() -> (r: Self)
        ensures
            r.anti_aliasing == None::<AntiAliasing>,
    {
        Self::new()
    }
}

/// Where a stroke lies relative to the outline of a shape.
#[derive(Clone, Copy, Debug, PartialEq, Eq, Structural)]
pub enum StrokeAlignment {
    Inside,
    Center,
    Outside,
}

impl Default for StrokeAlignment {
    fn default() -> (r: Self)
        ensures
            r == StrokeAlignment::Inside,
    {
        StrokeAlignment::Inside
    }
}

/// A color a renderer can draw with.
pub trait Color: Copy {
    fn default_foreground() -> Self;

    fn default_background() -> Self;
}

/// A color made of red, green and blue channels.
pub trait RgbColor: Sized {
    /// The color of the channels `r`, `g` and `b`.
    spec fn spec_rgb(r: u8, g: u8, b: u8) -> Self;

    fn rgb(r: u8, g: u8, b: u8) -> (c: Self)
        ensures
            c == Self::spec_rgb(r, g, b),
    ;

    /// The color of the channels `hex_channels` reads from `hex`.
    fn hex(hex: u32) -> (c: Self)
        ensures
            c == Self::spec_rgb(
                (hex & (0xff0000u32 >> 4u32)) as u8,
                (hex & (0x00ff00u32 >> 2u32)) as u8,
                (hex & 0x0000ffu32) as u8,
            ),
    {
        let (r, g, b) = hex_channels(hex);
        Self::rgb(r, g, b)
    }
}

/// The red, green and blue channels that `RgbColor::hex` reads from a
/// `0xRRGGBB` value. The shifts are applied to the masks, not to the value,
/// so red reads the bits of `0x0ff000` and green those of `0x003fc0`, each
/// truncated to its low byte.
pub fn hex_channels(hex: u32) -> (r: (u8, u8, u8))
    ensures
        r.0 == (hex & (0xff0000u32 >> 4u32)) as u8,
        r.1 == (hex & (0x00ff00u32 >> 2u32)) as u8,
        r.2 == (hex & 0x0000ffu32) as u8,
{
    ((hex & 0xff0000 >> 4) as u8, (hex & 0x00ff00 >> 2) as u8, (hex & 0x0000ff) as u8)
}

/// Unified style for drawing filled or stroked primitives.
#[derive(Clone, Copy, Debug, PartialEq)]
pub struct DrawStyle<C: Color> {
    pub fill: Option<C>,
    pub stroke: Option<C>,
    pub stroke_width: u32,
    pub stroke_alignment: StrokeAlignment,
}

impl<C: Color> Default for DrawStyle<C> {
    fn default() -> (r: Self)
        ensures
            r.fill == None::<C>,
            r.stroke == None::<C>,
            r.stroke_width == 0,
            r.stroke_alignment == StrokeAlignment::Inside,
    {
        Self { fill: None, stroke: None, stroke_width: 0, stroke_alignment: StrokeAlignment::Inside }
    }
}

impl<C: Color> DrawStyle<C> {
    /// Filled with `color`, no stroke.
    pub fn filled(color: C) -> (r: Self)
        ensures
            r.fill == Some(color),
            r.stroke == None::<C>,
            r.stroke_width == 0,
            r.stroke_alignment == StrokeAlignment::Inside,
    {
        Self { fill: Some(color), stroke: None, stroke_width: 0, stroke_alignment: StrokeAlignment::Inside }
    }

    /// Stroked with `color` at `width`, no fill.
    pub fn stroked(color: C, width: u32) -> (r: Self)
        ensures
            r.fill == None::<C>,
            r.stroke == Some(color),
            r.stroke_width == width,
            r.stroke_alignment == StrokeAlignment::Inside,
    {
        Self {
            fill: None,
            stroke: Some(color),
            stroke_width: width,
            stroke_alignment: StrokeAlignment::Inside,
        }
    }
}

/// How a viewport relates to the layer it draws on.
#[derive(Clone, Copy, Debug, PartialEq, Eq, Structural)]
pub enum ViewportKind {
    Fullscreen,
    /// Clipped part of the parent layer, with positions relative to the
    /// screen's top-left point.
    Clipped(Rect),
    /// Part of the parent layer, with positions relative to this layer's
    /// top-left point.
    Cropped(Rect),
}

#[derive(Clone, Copy, Debug, PartialEq, Eq, Structural)]
pub struct Viewport {
    pub layer: usize,
    pub kind: ViewportKind,
}

impl Viewport {
    /// The full screen on the first layer.
    pub fn root() -> (r: Self)
        ensures
            r.layer == 0,
            r.kind == ViewportKind::Fullscreen,
    {
        Self { layer: 0, kind: ViewportKind::Fullscreen }
    }
}

/// What a draw call returns.
pub type RenderResult = Result<(), ()>;

/// A renderer that can draw on numbered layers.
pub trait LayerRenderer: Sized {
    fn on_layer<F: FnOnce(&mut Self) -> RenderResult>(&mut self, index: usize, f: F) -> RenderResult;
}

/// A color with nothing in it, for renderers that draw nothing.
#[derive(Debug, Clone, Copy, Default, PartialEq, Eq, Structural)]
pub struct NullColor;

impl Color for NullColor {
    fn default_foreground() -> (r: Self) {
        NullColor
    }

    fn default_background() -> (r: Self) {
        NullColor
    }
}

impl NullColor {
    pub fn accents() -> (r: [Self; 6]) {
        [NullColor, NullColor, NullColor, NullColor, NullColor, NullColor]
    }
}

} // verus!
