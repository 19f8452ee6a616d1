//! Size limits a parent puts on a child, and how a length resolves into them.
use crate::geometry::Padding;
use crate::layout::axis::{scross, smain, Axial, Axis};
use crate::layout::size::{sat_sub, size_text, DeterministicLength, Length, Size};
use crate::layout::ContentSizing;
use vstd::prelude::*;

verus! {

/// A minimum and a maximum size.
#[derive(Clone, Copy, Debug, PartialEq, Eq, Structural)]
pub struct Limits {
    pub min: Size<u32>,
    pub max: Size<u32>,
}

/// `v` clamped to `max` and then to `min` (so `min` wins if `min > max`).
pub open spec fn clamp_u32(v: u32, min: u32, max: u32) -> u32 {
    let a = if v <= max { v } else { max };
    if a >= min { a } else { min }
}

fn clamp(v: u32, min: u32, max: u32) -> (r: u32)
    ensures
        r == clamp_u32(v, min, max),
{
    let a = if v <= max {
        v
    } else {
        max
    };
    if a >= min {
        a
    } else {
        min
    }
}

/// A size with its component along `axis` set to `main` and the other one to
/// `cross`.
pub open spec fn canon_size(axis: Axis, main: u32, cross: u32) -> Size<u32> {
    match axis {
        Axis::X => Size { width: main, height: cross },
        Axis::Y => Size { width: cross, height: main },
    }
}

/// `s` with its component along `axis` replaced by `main`.
pub open spec fn with_main_size(s: Size<u32>, axis: Axis, main: u32) -> Size<u32> {
    canon_size(axis, main, scross(&s, axis))
}

impl Limits {
    /// How the limits are written out: `[min:max]`.
    pub fn to_string(&self) -> (r: String)
        ensures
            r@ == "["@ + size_text(self.min) + ":"@ + size_text(self.max) + "]"@,
    {
        let mut out = String::from_str("[");
        self.min.write_to(&mut out);
        out.append(":");
        self.max.write_to(&mut out);
        out.append("]");
        out
    }

    /// The limits after limiting the `axis` component by `length`.
    ///
    /// With `child` set, an infinite window lifts the maximum on that axis;
    /// otherwise it limits as the length it wraps.
    pub open spec fn spec_limit_axis(self, axis: Axis, length: Length, child: bool) -> Limits {
        let det = match length {
            Length::InfiniteWindow(dl) => dl.spec_into_length(),
            _ => length,
        };
        if child && length is InfiniteWindow {
            Limits { min: self.min, max: canon_size(axis, u32::MAX, scross(&self.max, axis)) }
        } else {
            match det {
                Length::Fixed(fixed) => {
                    let l = clamp_u32(fixed, 0, smain(&self.max, axis));
                    let l = if l >= smain(&self.min, axis) { l } else { smain(&self.min, axis) };
                    Limits {
                        min: with_main_size(self.min, axis, l),
                        max: with_main_size(self.max, axis, l),
                    }
                },
                _ => self,
            }
        }
    }

    /// The length along `axis` that `container` resolves to for content of
    /// size `content`, before clamping into the limits.
    pub open spec fn spec_raw_axis(self, axis: Axis, container: Size<Length>, content: Size<u32>) -> u32 {
        match smain(&container, axis) {
            Length::Shrink | Length::InfiniteWindow(DeterministicLength::Shrink) => smain(&content, axis),
            Length::Div(_) | Length::InfiniteWindow(DeterministicLength::Div(_)) => smain(&self.max, axis),
            Length::Fixed(f) | Length::InfiniteWindow(DeterministicLength::Fixed(f)) => f,
        }
    }

    /// The resolved length along `axis`: the raw length clamped into the
    /// limits, the minimum winning over an inverted maximum.
    pub open spec fn spec_resolve_axis(self, axis: Axis, container: Size<Length>, content: Size<u32>) -> u32 {
        clamp_u32(self.spec_raw_axis(axis, container, content), smain(&self.min, axis), smain(&self.max, axis))
    }

    pub open spec fn spec_self_limits(self, size: Size<Length>) -> Limits {
        self.spec_limit_axis(Axis::X, size.width, false).spec_limit_axis(Axis::Y, size.height, false)
    }

    pub open spec fn spec_child_limits(self, size: Size<Length>) -> Limits {
        self.spec_limit_axis(Axis::X, size.width, true).spec_limit_axis(Axis::Y, size.height, true)
    }

    pub open spec fn spec_shrink(self, by: Size<u32>) -> Limits {
        Limits { min: self.min.spec_sub(by), max: self.max.spec_sub(by) }
    }

    pub open spec fn spec_resolve_size(self, size: Size<Length>, content: Size<u32>, full_padding: Option<Padding>) -> Size<u32> {
        let l = self.spec_self_limits(size);
        let l = match full_padding {
            Some(p) => l.spec_shrink(p.spec_size()),
            None => l,
        };
        Size {
            width: l.spec_resolve_axis(Axis::X, size, content),
            height: l.spec_resolve_axis(Axis::Y, size, content),
        }
    }

    pub fn new(min: Size<u32>, max: Size<u32>) -> (r: Self)
        ensures
            r.min == min,
            r.max == max,
    {
        Self { min, max }
    }

    pub fn unlimited() -> (r: Self)
        ensures
            r.min == Size::<u32>::zero_spec(),
            r.max == (Size { width: u32::MAX, height: u32::MAX }),
    {
        Self { min: Size::zero(), max: Size::new(u32::MAX, u32::MAX) }
    }

    pub fn only_max(max: Size<u32>) -> (r: Self)
        ensures
            r.min == Size::<u32>::zero_spec(),
            r.max == max,
    {
        Self { min: Size::zero(), max }
    }

    pub fn exact(exact: Size<u32>) -> (r: Self)
        ensures
            r.min == exact,
            r.max == exact,
    {
        Self::new(exact, exact)
    }

    pub fn zero() -> (r: Self)
        ensures
            r.min == Size::<u32>::zero_spec(),
            r.max == Size::<u32>::zero_spec(),
    {
        Self { min: Size::zero(), max: Size::zero() }
    }

    pub fn min(&self) -> (r: Size<u32>)
        ensures
            r == self.min,
    {
        self.min
    }

    pub fn max(&self) -> (r: Size<u32>)
        ensures
            r == self.max,
    {
        self.max
    }

    pub fn with_min(self, min: Size<u32>) -> (r: Self)
        ensures
            r.min == min,
            r.max == self.max,
    {
        Self::new(min, self.max)
    }

    pub fn with_max(self, max: Size<u32>) -> (r: Self)
        ensures
            r.min == self.min,
            r.max == max,
    {
        Self::new(self.min, max)
    }

    /// The limits a child with lengths `size` is laid out in.
    pub fn child_limits(self, size: Size<Length>) -> (r: Self)
        ensures
            r == self.spec_child_limits(size),
    {
        self.limit_axis(Axis::X, size.width, true).limit_axis(Axis::Y, size.height, true)
    }

    /// Limits the `axis` component by `length`.
    pub fn limit_axis(self, axis: Axis, length: Length, child_limits: bool) -> (r: Self)
        ensures
            r == self.spec_limit_axis(axis, length, child_limits),
    {
        let det = match length {
            Length::InfiniteWindow(dl) => {
                if child_limits {
                    let cross = self.max.cross(axis);
                    return self.with_max(axis.canon(u32::MAX, cross));
                }
                dl.into_length()
            },
            _ => length,
        };
        match det {
            Length::Fixed(fixed) => {
                let max_main = self.max.main(axis);
                let min_main = self.min.main(axis);
                let new_length = clamp(fixed, 0, max_main);
                let new_length = if new_length >= min_main {
                    new_length
                } else {
                    min_main
                };
                Self::new(self.min.with_main(axis, new_length), self.max.with_main(axis, new_length))
            },
            _ => self,
        }
    }

    /// Like [`Limits::child_limits`], but an infinite window limits as the
    /// length it wraps instead of lifting the maximum.
    pub fn self_limits(self, size: Size<Length>) -> (r: Self)
        ensures
            r == self.spec_self_limits(size),
    {
        self.limit_axis(Axis::X, size.width, false).limit_axis(Axis::Y, size.height, false)
    }

    /// Both bounds reduced by `by` (saturating).
    pub fn shrink(self, by: Size<u32>) -> (r: Self)
        ensures
            r == self.spec_shrink(by),
    {
        Limits::new(self.min() - by, self.max() - by)
    }

    /// Resolves the `axis` component of a box of lengths `container_size`
    /// around content of size `content_size`.
    pub fn resolve_axis(&self, axis: Axis, container_size: Size<Length>, content_size: Size<u32>) -> (r: u32)
        ensures
            r == self.spec_resolve_axis(axis, container_size, content_size),
    {
        let min = self.min.main(axis);
        let max = self.max.main(axis);
        let raw = match container_size.main(axis) {
            Length::Shrink | Length::InfiniteWindow(DeterministicLength::Shrink) => content_size.main(axis),
            Length::Div(_) | Length::InfiniteWindow(DeterministicLength::Div(_)) => max,
            Length::Fixed(fixed) | Length::InfiniteWindow(DeterministicLength::Fixed(fixed)) => fixed,
        };
        clamp(raw, min, max)
    }

    /// Resolves a content leaf whose height depends on its width: the width
    /// resolves from `sizing.max_content`, then the height from
    /// `height_for_width(width)`.
    pub fn resolve_content_size<F: Fn(u32) -> u32>(
        &self,
        size: Size<Length>,
        sizing: &ContentSizing,
        height_for_width: F,
    ) -> (r: Size<u32>)
        requires
            forall|w: u32| height_for_width.requires((w,)),
        ensures
            r.width == self.spec_self_limits(size).spec_resolve_axis(
                Axis::X,
                size,
                Size { width: sizing.max_content, height: 0 },
            ),
            exists|h: u32|
                height_for_width.ensures((r.width,), h) && r.height
                    == self.spec_self_limits(size).spec_resolve_axis(
                    Axis::Y,
                    size,
                    Size { width: 0, height: h },
                ),
    {
        let self_limits = self.self_limits(size);
        let width = self_limits.resolve_axis(Axis::X, size, Size::new(sizing.max_content, 0));
        let h = height_for_width(width);
        let height = self_limits.resolve_axis(Axis::Y, size, Size::new(0, h));
        Size::new(width, height)
    }

    /// Resolves a box of lengths `size` around content of size
    /// `content_size`, inside the padding if one is given.
    pub fn resolve_size(&self, size: Size<Length>, content_size: Size<u32>, full_padding: Option<Padding>) -> (r: Size<u32>)
        ensures
            r == self.spec_resolve_size(size, content_size, full_padding),
    {
        let self_limits = self.self_limits(size);
        let self_limits = match full_padding {
            Some(p) => self_limits.shrink(p.size()),
            None => self_limits,
        };
        Size::new(
            self_limits.resolve_axis(Axis::X, size, content_size),
            self_limits.resolve_axis(Axis::Y, size, content_size),
        )
    }
}

/// A resolved length lies within the limits when they are not inverted, and
/// is the minimum when they are.
pub proof fn lemma_resolve_axis_within_limits(l: Limits, axis: Axis, container: Size<Length>, content: Size<u32>)
    ensures
        smain(&l.min, axis) <= smain(&l.max, axis) ==> smain(&l.min, axis) <= l.spec_resolve_axis(axis, container, content) <= smain(&l.max, axis),
        smain(&l.min, axis) > smain(&l.max, axis) ==> l.spec_resolve_axis(axis, container, content) == smain(&l.min, axis),
{
}

/// Exact limits resolve every fixed, fluid or shrinking length to the exact
/// size.
pub proof fn lemma_exact_limits_resolve_exactly(s: Size<u32>, axis: Axis, container: Size<Length>, content: Size<u32>)
    ensures
        (Limits { min: s, max: s }).spec_resolve_axis(axis, container, content) == smain(&s, axis),
{
}

/// Within non-inverted limits, a fixed length resolves to itself exactly when
/// it lies within them.
pub proof fn lemma_fixed_within_limits_is_kept(l: Limits, axis: Axis, container: Size<Length>, content: Size<u32>, f: u32)
    requires
        smain(&container, axis) == Length::Fixed(f),
        smain(&l.min, axis) <= f <= smain(&l.max, axis),
    ensures
        l.spec_resolve_axis(axis, container, content) == f,
{
}

/// Shrinking the limits by nothing leaves them unchanged.
pub proof fn lemma_shrink_by_zero(l: Limits)
    ensures
        l.spec_shrink(Size::<u32>::zero_spec()) == l,
{
    assert(l.min.spec_sub(Size::<u32>::zero_spec()) == l.min);
    assert(l.max.spec_sub(Size::<u32>::zero_spec()) == l.max);
}

/// The content of an infinite window is not limited along the window's
/// axis: for a width (height) given as `InfiniteWindow`, the limits of the
/// window's child reach up to `u32::MAX` in width (height) and keep the
/// smallest width (height). The window itself is limited as the length it
/// wraps.
pub proof fn lemma_infinite_window_limits(l: Limits, size: Size<Length>, d: DeterministicLength)
    ensures
        size.width is InfiniteWindow ==> l.spec_child_limits(size).max.width == u32::MAX
            && l.spec_child_limits(size).min.width == l.min.width,
        size.height is InfiniteWindow ==> l.spec_child_limits(size).max.height == u32::MAX
            && l.spec_child_limits(size).min.height == l.min.height,
        size.width is InfiniteWindow && size.height is InfiniteWindow ==> l.spec_child_limits(size) == (Limits {
            min: l.min,
            max: Size { width: u32::MAX, height: u32::MAX },
        }),
        l.spec_self_limits(Size { width: Length::InfiniteWindow(d), height: size.height }) == l.spec_self_limits(
            Size { width: d.spec_into_length(), height: size.height },
        ),
        l.spec_self_limits(Size { width: size.width, height: Length::InfiniteWindow(d) }) == l.spec_self_limits(
            Size { width: size.width, height: d.spec_into_length() },
        ),
{
}

/// A fixed length pins the limits along its axis: clamped into the limits,
/// it becomes both the smallest and the largest length along that axis,
/// while the other axis keeps its limits (for a window as for its child).
pub proof fn lemma_fixed_length_pins_limits(l: Limits, axis: Axis, f: u32, child: bool)
    requires
        smain(&l.min, axis) <= smain(&l.max, axis),
    ensures
        smain(&l.spec_limit_axis(axis, Length::Fixed(f), child).min, axis) == (if f > smain(&l.max, axis) {
            smain(&l.max, axis)
        } else if f < smain(&l.min, axis) {
            smain(&l.min, axis)
        } else {
            f
        }),
        smain(&l.spec_limit_axis(axis, Length::Fixed(f), child).max, axis) == smain(
            &l.spec_limit_axis(axis, Length::Fixed(f), child).min,
            axis,
        ),
        scross(&l.spec_limit_axis(axis, Length::Fixed(f), child).min, axis) == scross(&l.min, axis),
        scross(&l.spec_limit_axis(axis, Length::Fixed(f), child).max, axis) == scross(&l.max, axis),
{
}

} // verus!
