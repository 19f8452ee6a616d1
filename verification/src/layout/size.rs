//! Sizes, lengths and the division factors that fluid lengths are built from.
use crate::geometry::{fits_i32, CornerRadii, Padding, Point};
use crate::layout::axis::{Axial, Axis};
use crate::utils::{decimal, push_decimal};
use core::num::TryFromIntError;
use vstd::prelude::*;
use vstd::std_specs::convert::TryFromSpecImpl;
use vstd::std_specs::ops::{
    AddSpecImpl, DivSpecImpl, MulSpecImpl, NegSpecImpl, RemSpecImpl, SubSpecImpl,
};

verus! {

/// Taking a part out of a value.
pub trait SubTake<Rhs = Self>: Sized {
    /// Subtracts `sub` from `self` if `self` holds at least that much and
    /// returns what was taken.
    fn sub_take(&mut self, sub: Rhs) -> Self;
}

impl SubTake for u32 {
    fn sub_take(&mut self, sub: u32) -> (r: u32)
        ensures
            *old(self) >= sub ==> r == sub && *final(self) == *old(self) - sub,
            *old(self) < sub ==> r == 0 && *final(self) == *old(self),
    {
        if *self >= sub {
            *self -= sub;
            sub
        } else {
            0
        }
    }
}

/// Per-axis division factors of fluid (`Div`) lengths.
#[derive(Clone, Copy, Debug, PartialEq, Eq, Structural)]
pub struct DivFactors {
    pub width: u16,
    pub height: u16,
}

impl DivFactors {
    pub fn new(width: u16, height: u16) -> (r: Self)
        ensures
            r.width == width,
            r.height == height,
    {
        Self { width, height }
    }

    pub fn zero() -> (r: Self)
        ensures
            r.width == 0,
            r.height == 0,
    {
        Self { width: 0, height: 0 }
    }
}

impl Axial for DivFactors {
    type Data = u16;

    open spec fn sx(&self) -> u16 {
        self.width
    }

    open spec fn sy(&self) -> u16 {
        self.height
    }

    fn x(&self) -> (r: u16) {
        self.width
    }

    fn y(&self) -> (r: u16) {
        self.height
    }

    fn x_mut(&mut self) -> (r: &mut u16) {
        &mut self.width
    }

    fn y_mut(&mut self) -> (r: &mut u16) {
        &mut self.height
    }

    fn axial_new(x: u16, y: u16) -> (r: Self) {
        Self::new(x, y)
    }
}

impl From<DivFactors> for Size<u32> {
    fn from(value: DivFactors) -> (r: Size<u32>) {
        Size::new(value.width as u32, value.height as u32)
    }
}

impl vstd::std_specs::convert::FromSpecImpl<DivFactors> for Size<u32> {
    open spec fn obeys_from_spec() -> bool {
        true
    }

    open spec fn from_spec(v: DivFactors) -> Size<u32> {
        Size { width: v.width as u32, height: v.height as u32 }
    }
}

impl core::ops::Add for DivFactors {
    type Output = Self;

    fn add(self, rhs: Self) -> (r: Self) {
        Self::new(self.width + rhs.width, self.height + rhs.height)
    }
}

impl AddSpecImpl for DivFactors {
    open spec fn obeys_add_spec() -> bool {
        true
    }

    open spec fn add_req(self, rhs: Self) -> bool {
        self.width + rhs.width <= u16::MAX && self.height + rhs.height <= u16::MAX
    }

    open spec fn add_spec(self, rhs: Self) -> Self {
        DivFactors {
            width: (self.width + rhs.width) as u16,
            height: (self.height + rhs.height) as u16,
        }
    }
}

impl DivFactors {
    /// `self += rhs`.
    pub fn add_assign(&mut self, rhs: Self)
        requires
            old(self).width + rhs.width <= u16::MAX,
            old(self).height + rhs.height <= u16::MAX,
        ensures
            final(self).width == old(self).width + rhs.width,
            final(self).height == old(self).height + rhs.height,
    {
        *self = Self::new(self.width + rhs.width, self.height + rhs.height);
    }
}

/// `a / b`, or `0` when `b` is zero.
pub open spec fn div_or_zero(a: int, b: int) -> int {
    if b == 0 {
        0
    } else {
        a / b
    }
}

/// `a % b`, or `0` when `b` is zero.
pub open spec fn rem_or_zero(a: int, b: int) -> int {
    if b == 0 {
        0
    } else {
        a % b
    }
}

impl core::ops::Div for DivFactors {
    type Output = Self;

    fn div(self, rhs: Self) -> (r: Self) {
        Self::new(
            if rhs.width == 0 { 0 } else { self.width / rhs.width },
            if rhs.height == 0 { 0 } else { self.height / rhs.height },
        )
    }
}

impl DivSpecImpl for DivFactors {
    open spec fn obeys_div_spec() -> bool {
        true
    }

    open spec fn div_req(self, rhs: Self) -> bool {
        true
    }

    open spec fn div_spec(self, rhs: Self) -> Self {
        DivFactors {
            width: div_or_zero(self.width as int, rhs.width as int) as u16,
            height: div_or_zero(self.height as int, rhs.height as int) as u16,
        }
    }
}

impl core::ops::Div<DivFactors> for Size<u32> {
    type Output = Size<u32>;

    fn div(self, rhs: DivFactors) -> (r: Size<u32>) {
        Size::new(
            if rhs.width == 0 { 0 } else { self.width / rhs.width as u32 },
            if rhs.height == 0 { 0 } else { self.height / rhs.height as u32 },
        )
    }
}

impl DivSpecImpl<DivFactors> for Size<u32> {
    open spec fn obeys_div_spec() -> bool {
        true
    }

    open spec fn div_req(self, rhs: DivFactors) -> bool {
        true
    }

    open spec fn div_spec(self, rhs: DivFactors) -> Size<u32> {
        Size {
            width: div_or_zero(self.width as int, rhs.width as int) as u32,
            height: div_or_zero(self.height as int, rhs.height as int) as u32,
        }
    }
}

impl core::ops::Rem<DivFactors> for Size<u32> {
    type Output = Size<u32>;

    fn rem(self, rhs: DivFactors) -> (r: Size<u32>) {
        Size::new(
            if rhs.width == 0 { 0 } else { self.width % rhs.width as u32 },
            if rhs.height == 0 { 0 } else { self.height % rhs.height as u32 },
        )
    }
}

impl RemSpecImpl<DivFactors> for Size<u32> {
    open spec fn obeys_rem_spec() -> bool {
        true
    }

    open spec fn rem_req(self, rhs: DivFactors) -> bool {
        true
    }

    open spec fn rem_spec(self, rhs: DivFactors) -> Size<u32> {
        Size {
            width: rem_or_zero(self.width as int, rhs.width as int) as u32,
            height: rem_or_zero(self.height as int, rhs.height as int) as u32,
        }
    }
}

/// A length that can be resolved without an infinite window.
#[derive(Clone, Copy, Debug, PartialEq, Eq, Structural)]
pub enum DeterministicLength {
    Shrink,
    Div(u16),
    Fixed(u32),
}

impl TryFrom<Length> for DeterministicLength {
    type Error = ();

    fn try_from(value: Length) -> (r: Result<Self, ()>) {
        match value {
            Length::Shrink => Ok(Self::Shrink),
            Length::Div(div) => Ok(Self::Div(div)),
            Length::Fixed(fixed) => Ok(Self::Fixed(fixed)),
            Length::InfiniteWindow(_) => Err(()),
        }
    }
}

impl TryFromSpecImpl<Length> for DeterministicLength {
    open spec fn obeys_try_from_spec() -> bool {
        true
    }

    open spec fn try_from_spec(v: Length) -> Result<Self, ()> {
        match v {
            Length::Shrink => Ok(DeterministicLength::Shrink),
            Length::Div(div) => Ok(DeterministicLength::Div(div)),
            Length::Fixed(fixed) => Ok(DeterministicLength::Fixed(fixed)),
            Length::InfiniteWindow(_) => Err(()),
        }
    }
}

impl DeterministicLength {
    /// The length this one stands for.
    pub open spec fn spec_into_length(self) -> Length {
        match self {
            DeterministicLength::Shrink => Length::Shrink,
            DeterministicLength::Div(div) => Length::Div(div),
            DeterministicLength::Fixed(fixed) => Length::Fixed(fixed),
        }
    }

    pub fn into_length(self) -> (r: Length)
        ensures
            r == self.spec_into_length(),
    {
        match self {
            DeterministicLength::Shrink => Length::Shrink,
            DeterministicLength::Div(div) => Length::Div(div),
            DeterministicLength::Fixed(fixed) => Length::Fixed(fixed),
        }
    }
}

impl From<DeterministicLength> for Length {
    fn from(value: DeterministicLength) -> (r: Length) {
        value.into_length()
    }
}

impl vstd::std_specs::convert::FromSpecImpl<DeterministicLength> for Length {
    open spec fn obeys_from_spec() -> bool {
        true
    }

    open spec fn from_spec(v: DeterministicLength) -> Length {
        v.spec_into_length()
    }
}

/// How long a box is along one axis.
#[derive(Clone, Copy, Debug, PartialEq, Eq, Structural)]
pub enum Length {
    /// Shrink to the minimum space.
    Shrink,
    /// Fill a portion of available space: `100% / Div(N)`.
    Div(u16),
    /// Fixed pixels count.
    Fixed(u32),
    /// Only available for special internal layouts such as Scrollable.
    InfiniteWindow(DeterministicLength),
}

/// How a length that can be resolved without an infinite window is written
/// out: `Shrink`, `Div(n)` or `Fixed(n)`.
pub open spec fn deterministic_text(l: DeterministicLength) -> Seq<char> {
    match l {
        DeterministicLength::Shrink => "Shrink"@,
        DeterministicLength::Div(d) => "Div("@ + decimal(d as nat) + ")"@,
        DeterministicLength::Fixed(f) => "Fixed("@ + decimal(f as nat) + ")"@,
    }
}

/// How a length is written out: one division is `Fill` and an infinite
/// fixed length `Inf`.
pub open spec fn length_text(l: Length) -> Seq<char> {
    match l {
        Length::Shrink => "Shrink"@,
        Length::Div(d) => if d == 1 {
            "Fill"@
        } else {
            "Div("@ + decimal(d as nat) + ")"@
        },
        Length::Fixed(f) => if f == u32::MAX {
            "Inf"@
        } else {
            "Fixed("@ + decimal(f as nat) + ")"@
        },
        Length::InfiniteWindow(d) => "InfiniteWindow("@ + deterministic_text(d) + ")"@,
    }
}

/// How a size is written out: the width, `x`, and the width again (`Inf`
/// for `u32::MAX`).
pub open spec fn size_text(s: Size<u32>) -> Seq<char> {
    if s.width == u32::MAX {
        "Inf"@ + "xInf"@
    } else {
        decimal(s.width as nat) + "x"@ + decimal(s.width as nat)
    }
}

/// How lengths are written out: the width's, `x`, the height's.
pub open spec fn lengths_text(s: Size<Length>) -> Seq<char> {
    length_text(s.width) + "x"@ + length_text(s.height)
}

impl DeterministicLength {
    /// Appends how the length is written out to `out`.
    pub(crate) fn write_to(&self, out: &mut String)
        ensures
            final(out)@ == old(out)@ + deterministic_text(*self),
    {
        match self {
            DeterministicLength::Shrink => out.append("Shrink"),
            DeterministicLength::Div(d) => {
                out.append("Div(");
                push_decimal(out, *d as u64);
                out.append(")");
            },
            DeterministicLength::Fixed(f) => {
                out.append("Fixed(");
                push_decimal(out, *f as u64);
                out.append(")");
            },
        }
    }
}

impl Length {
    /// Appends how the length is written out to `out`.
    pub(crate) fn write_to(&self, out: &mut String)
        ensures
            final(out)@ == old(out)@ + length_text(*self),
    {
        match self {
            Length::Shrink => out.append("Shrink"),
            Length::Div(d) => {
                if *d == 1 {
                    out.append("Fill");
                } else {
                    out.append("Div(");
                    push_decimal(out, *d as u64);
                    out.append(")");
                }
            },
            Length::Fixed(f) => {
                if *f == u32::MAX {
                    out.append("Inf");
                } else {
                    out.append("Fixed(");
                    push_decimal(out, *f as u64);
                    out.append(")");
                }
            },
            Length::InfiniteWindow(d) => {
                out.append("InfiniteWindow(");
                d.write_to(out);
                out.append(")");
            },
        }
    }

    /// How the length is written out.
    pub fn to_string(&self) -> (r: String)
        ensures
            r@ == length_text(*self),
    {
        let mut out = String::new();
        self.write_to(&mut out);
        out
    }

    pub fn fill() -> (r: Self)
        ensures
            r == Length::Div(1),
    {
        Length::Div(1)
    }

    /// The division factor: the `N` of `Div(N)`, `0` for other lengths.
    pub open spec fn spec_div_factor(self) -> u16 {
        match self {
            Length::InfiniteWindow(l) => match l {
                DeterministicLength::Div(d) => d,
                _ => 0,
            },
            Length::Fixed(_) | Length::Shrink => 0,
            Length::Div(d) => d,
        }
    }

    pub fn div_factor(&self) -> (r: u16)
        ensures
            r == self.spec_div_factor(),
    {
        match self {
            Length::InfiniteWindow(length) => match length {
                DeterministicLength::Div(d) => *d,
                _ => 0,
            },
            Length::Fixed(_) | Length::Shrink => 0,
            Length::Div(div) => *div,
        }
    }

    /// A fluid length inside a shrinking parent shrinks too.
    pub open spec fn spec_in_parent(self, parent: Self) -> Self {
        match (self, parent) {
            (Length::Div(_), Length::Shrink) => Length::Shrink,
            _ => self,
        }
    }

    pub fn in_parent(self, parent: Self) -> (r: Self)
        ensures
            r == self.spec_in_parent(parent),
    {
        match (self, parent) {
            (Length::Div(_), Length::Shrink) => Length::Shrink,
            _ => self,
        }
    }

    /// The deterministic length this one stands for (`Shrink` for an infinite
    /// window, which has none).
    pub open spec fn spec_deterministic(self) -> DeterministicLength {
        match self {
            Length::Shrink => DeterministicLength::Shrink,
            Length::Div(div) => DeterministicLength::Div(div),
            Length::Fixed(fixed) => DeterministicLength::Fixed(fixed),
            Length::InfiniteWindow(_) => DeterministicLength::Shrink,
        }
    }

    /// Replaces the length, keeping an infinite window an infinite window.
    ///
    /// An infinite window cannot be set inside an infinite window.
    pub fn set_deterministic(&mut self, length: Length)
        requires
            *old(self) is InfiniteWindow ==> !(length is InfiniteWindow),
        ensures
            *old(self) is InfiniteWindow ==> *final(self) == Length::InfiniteWindow(
                length.spec_deterministic(),
            ),
            !(*old(self) is InfiniteWindow) ==> *final(self) == length,
    {
        if let Length::InfiniteWindow(_) = self {
            let det = match length {
                Length::Shrink => DeterministicLength::Shrink,
                Length::Div(div) => DeterministicLength::Div(div),
                Length::Fixed(fixed) => DeterministicLength::Fixed(fixed),
                Length::InfiniteWindow(_) => DeterministicLength::Shrink,
            };
            *self = Length::InfiniteWindow(det);
        } else {
            *self = length;
        }
    }

    /// True for lengths that grow into the free space (`Div`).
    pub open spec fn spec_is_grow(self) -> bool {
        match self {
            Length::InfiniteWindow(l) => l is Div,
            Length::Div(_) => true,
            Length::Shrink | Length::Fixed(_) => false,
        }
    }

    pub fn is_grow(&self) -> (r: bool)
        ensures
            r == self.spec_is_grow(),
    {
        match self {
            Length::InfiniteWindow(length) => match length {
                DeterministicLength::Div(_) => true,
                _ => false,
            },
            Length::Div(_) => true,
            Length::Shrink | Length::Fixed(_) => false,
        }
    }

    /// The fixed length this length takes when one division is `base_div`.
    pub open spec fn spec_into_fixed(self, base_div: u32) -> int {
        match self {
            Length::InfiniteWindow(l) => match l {
                DeterministicLength::Shrink => base_div as int,
                DeterministicLength::Div(d) => base_div * d,
                DeterministicLength::Fixed(f) => f as int,
            },
            Length::Shrink => base_div as int,
            Length::Div(d) => base_div * d,
            Length::Fixed(f) => f as int,
        }
    }

    /// The fixed length `div` divisions take when one division is
    /// `base_div`.
    pub fn div_into_fixed(div: u16, base_div: u32) -> (r: u32)
        requires
            base_div * div <= u32::MAX,
        ensures
            r == base_div * div,
    {
        base_div * (div as u32)
    }

    pub fn into_fixed(&self, base_div: u32) -> (r: u32)
        requires
            self.spec_into_fixed(base_div) <= u32::MAX,
        ensures
            r == self.spec_into_fixed(base_div),
    {
        match self {
            Length::InfiniteWindow(length) => match length {
                DeterministicLength::Shrink => base_div,
                DeterministicLength::Div(div) => base_div * (*div as u32),
                DeterministicLength::Fixed(fixed) => *fixed,
            },
            Length::Shrink => base_div,
            Length::Div(div) => base_div * (*div as u32),
            Length::Fixed(fixed) => *fixed,
        }
    }

    /// The fixed length itself for a fixed length, `fixed` for other lengths.
    pub open spec fn spec_max_fixed(self, fixed: u32) -> u32 {
        match self {
            Length::InfiniteWindow(l) => match l {
                DeterministicLength::Fixed(f) => f,
                _ => fixed,
            },
            Length::Shrink | Length::Div(_) => fixed,
            Length::Fixed(f) => f,
        }
    }

    pub fn max_fixed(&self, fixed: u32) -> (r: u32)
        ensures
            r == self.spec_max_fixed(fixed),
    {
        match self {
            Length::InfiniteWindow(length) => match length {
                DeterministicLength::Fixed(own) => *own,
                _ => fixed,
            },
            Length::Shrink | Length::Div(_) => fixed,
            Length::Fixed(own) => {
                let own = *own;
                if own >= own {
                    own
                } else {
                    own
                }
            },
        }
    }
}

impl From<u32> for Length {
    fn from(value: u32) -> (r: Length) {
        Length::Fixed(value)
    }
}

impl vstd::std_specs::convert::FromSpecImpl<u32> for Length {
    open spec fn obeys_from_spec() -> bool {
        true
    }

    open spec fn from_spec(v: u32) -> Length {
        Length::Fixed(v)
    }
}

/// A width and a height.
#[derive(Clone, Copy, Debug, PartialEq, Eq, Structural)]
pub struct Size<T> {
    pub width: T,
    pub height: T,
}

impl<T> Size<T> {
    pub fn new(width: T, height: T) -> (r: Self)
        ensures
            r.width == width,
            r.height == height,
    {
        Self { width, height }
    }

    pub fn new_equal(equal: T) -> (r: Self) where T: Copy
        ensures
            r.width == equal,
            r.height == equal,
    {
        Self { width: equal, height: equal }
    }

    /// Applies `f` to both components.
    pub fn map<F, U>(&self, f: F) -> (r: Size<U>) where F: Fn(T) -> U, T: Copy
        requires
            f.requires((self.width,)),
            f.requires((self.height,)),
        ensures
            f.ensures((self.width,), r.width),
            f.ensures((self.height,), r.height),
    {
        Size::new(f(self.width), f(self.height))
    }

    pub fn with_width(self, width: T) -> (r: Self)
        ensures
            r.width == width,
            r.height == self.height,
    {
        Self { width, height: self.height }
    }

    pub fn with_height(self, height: T) -> (r: Self)
        ensures
            r.width == self.width,
            r.height == height,
    {
        Self { width: self.width, height }
    }

    pub fn set_width(&mut self, width: T)
        ensures
            final(self).width == width,
            final(self).height == old(self).height,
    {
        self.width = width;
    }

    pub fn set_height(&mut self, height: T)
        ensures
            final(self).width == old(self).width,
            final(self).height == height,
    {
        self.height = height;
    }
}

impl Size<Length> {
    /// How the lengths are written out.
    pub fn to_string(&self) -> (r: String)
        ensures
            r@ == lengths_text(*self),
    {
        let mut out = String::new();
        self.width.write_to(&mut out);
        out.append("x");
        self.height.write_to(&mut out);
        out
    }

    pub fn in_parent(self, parent: Self) -> (r: Self)
        ensures
            r.width == self.width.spec_in_parent(parent.width),
            r.height == self.height.spec_in_parent(parent.height),
    {
        Self::new(self.width.in_parent(parent.width), self.height.in_parent(parent.height))
    }

    pub fn div_factors(&self) -> (r: DivFactors)
        ensures
            r.width == self.width.spec_div_factor(),
            r.height == self.height.spec_div_factor(),
    {
        DivFactors { width: self.width.div_factor(), height: self.height.div_factor() }
    }

    pub fn max_fixed(&self, fixed: Size<u32>) -> (r: Size<u32>)
        ensures
            r.width == self.width.spec_max_fixed(fixed.width),
            r.height == self.height.spec_max_fixed(fixed.height),
    {
        Size::new(self.width.max_fixed(fixed.width), self.height.max_fixed(fixed.height))
    }

    pub fn into_fixed(&self, base_divs: Size<u32>) -> (r: Size<u32>)
        requires
            self.width.spec_into_fixed(base_divs.width) <= u32::MAX,
            self.height.spec_into_fixed(base_divs.height) <= u32::MAX,
        ensures
            r.width == self.width.spec_into_fixed(base_divs.width),
            r.height == self.height.spec_into_fixed(base_divs.height),
    {
        Size::new(self.width.into_fixed(base_divs.width), self.height.into_fixed(base_divs.height))
    }

    pub fn fixed_length(width: u32, height: u32) -> (r: Self)
        ensures
            r.width == Length::Fixed(width),
            r.height == Length::Fixed(height),
    {
        Self { width: Length::Fixed(width), height: Length::Fixed(height) }
    }

    pub fn shrink() -> (r: Self)
        ensures
            r.width == Length::Shrink,
            r.height == Length::Shrink,
    {
        Self { width: Length::Shrink, height: Length::Shrink }
    }

    pub fn fill() -> (r: Self)
        ensures
            r.width == Length::Div(1),
            r.height == Length::Div(1),
    {
        Self { width: Length::Div(1), height: Length::Div(1) }
    }
}

/// `a + b`, saturating at `u32::MAX`.
pub open spec fn sat_add(a: u32, b: u32) -> u32 {
    if a + b > u32::MAX {
        u32::MAX
    } else {
        (a + b) as u32
    }
}

/// `a - b`, saturating at `0`.
pub open spec fn sat_sub(a: u32, b: u32) -> u32 {
    if a < b {
        0
    } else {
        (a - b) as u32
    }
}

impl Size<u32> {
    /// Appends how the size is written out to `out`.
    pub(crate) fn write_to(&self, out: &mut String)
        ensures
            final(out)@ == old(out)@ + size_text(*self),
    {
        if self.width == u32::MAX {
            out.append("Inf");
        } else {
            push_decimal(out, self.width as u64);
        }
        if self.width == u32::MAX {
            out.append("xInf");
        } else {
            out.append("x");
            push_decimal(out, self.width as u64);
        }
    }

    /// How the size is written out.
    pub fn to_string(&self) -> (r: String)
        ensures
            r@ == size_text(*self),
    {
        let mut out = String::new();
        self.write_to(&mut out);
        out
    }

    pub open spec fn zero_spec() -> Size<u32> {
        Size { width: 0, height: 0 }
    }

    pub fn zero() -> (r: Self)
        ensures
            r == Self::zero_spec(),
    {
        Self { width: 0, height: 0 }
    }

    /// Grows both components by `by`.
    pub fn expand(self, by: Size<u32>) -> (r: Self)
        requires
            self.width + by.width <= u32::MAX,
            self.height + by.height <= u32::MAX,
        ensures
            r.width == self.width + by.width,
            r.height == self.height + by.height,
    {
        Self::new(self.width + by.width, self.height + by.height)
    }

    pub fn as_fixed_length(self) -> (r: Size<Length>)
        ensures
            r.width == Length::Fixed(self.width),
            r.height == Length::Fixed(self.height),
    {
        Size::new(Length::Fixed(self.width), Length::Fixed(self.height))
    }

    /// The largest square that fits.
    pub fn max_square(self) -> (r: Self)
        ensures
            r.width == r.height,
            r.width <= self.width,
            r.width <= self.height,
            r.width == self.width || r.width == self.height,
    {
        let min = if self.width <= self.height {
            self.width
        } else {
            self.height
        };
        Self::new_equal(min)
    }

    /// True when the size has no area.
    pub open spec fn spec_is_zero(self) -> bool {
        self.width == 0 || self.height == 0
    }

    pub fn is_zero(&self) -> (r: bool)
        ensures
            r == self.spec_is_zero(),
    {
        self.width == 0 || self.height == 0
    }

    /// Component-wise saturating sum.
    pub open spec fn spec_add(self, rhs: Self) -> Self {
        Size { width: sat_add(self.width, rhs.width), height: sat_add(self.height, rhs.height) }
    }

    /// Component-wise saturating difference.
    pub open spec fn spec_sub(self, rhs: Self) -> Self {
        Size { width: sat_sub(self.width, rhs.width), height: sat_sub(self.height, rhs.height) }
    }

    /// `self += rhs`, saturating.
    pub fn add_assign(&mut self, rhs: Self)
        ensures
            *final(self) == old(self).spec_add(rhs),
    {
        *self = *self + rhs;
    }

    /// `self -= rhs`, saturating.
    pub fn sub_assign(&mut self, rhs: Self)
        ensures
            *final(self) == old(self).spec_sub(rhs),
    {
        *self = *self - rhs;
    }

    /// `self -= (rhs, rhs)`, saturating.
    pub fn sub_assign_equal(&mut self, rhs: u32)
        ensures
            *final(self) == old(self).spec_sub(Size { width: rhs, height: rhs }),
    {
        *self = *self - Size::new_equal(rhs);
    }
}

impl core::ops::Add for Size<u32> {
    type Output = Self;

    fn add(self, rhs: Self) -> (r: Self) {
        Self::new(self.width.saturating_add(rhs.width), self.height.saturating_add(rhs.height))
    }
}

impl AddSpecImpl for Size<u32> {
    open spec fn obeys_add_spec() -> bool {
        true
    }

    open spec fn add_req(self, rhs: Self) -> bool {
        true
    }

    open spec fn add_spec(self, rhs: Self) -> Self {
        self.spec_add(rhs)
    }
}

impl core::ops::Sub for Size<u32> {
    type Output = Self;

    fn sub(self, rhs: Self) -> (r: Self) {
        Self::new(self.width.saturating_sub(rhs.width), self.height.saturating_sub(rhs.height))
    }
}

impl SubSpecImpl for Size<u32> {
    open spec fn obeys_sub_spec() -> bool {
        true
    }

    open spec fn sub_req(self, rhs: Self) -> bool {
        true
    }

    open spec fn sub_spec(self, rhs: Self) -> Self {
        self.spec_sub(rhs)
    }
}

impl core::ops::Add<Padding> for Size<u32> {
    type Output = Self;

    fn add(self, rhs: Padding) -> (r: Self) {
        self + rhs.size()
    }
}

impl AddSpecImpl<Padding> for Size<u32> {
    open spec fn obeys_add_spec() -> bool {
        true
    }

    open spec fn add_req(self, rhs: Padding) -> bool {
        true
    }

    open spec fn add_spec(self, rhs: Padding) -> Self {
        self.spec_add(rhs.spec_size())
    }
}

impl core::ops::Sub<Padding> for Size<u32> {
    type Output = Self;

    fn sub(self, rhs: Padding) -> (r: Self) {
        self - rhs.size()
    }
}

impl SubSpecImpl<Padding> for Size<u32> {
    open spec fn obeys_sub_spec() -> bool {
        true
    }

    open spec fn sub_req(self, rhs: Padding) -> bool {
        true
    }

    open spec fn sub_spec(self, rhs: Padding) -> Self {
        self.spec_sub(rhs.spec_size())
    }
}

impl core::ops::Mul<DivFactors> for Size<u32> {
    type Output = Self;

    fn mul(self, rhs: DivFactors) -> (r: Self) {
        Self::new(self.width * rhs.width as u32, self.height * rhs.height as u32)
    }
}

impl MulSpecImpl<DivFactors> for Size<u32> {
    open spec fn obeys_mul_spec() -> bool {
        true
    }

    open spec fn mul_req(self, rhs: DivFactors) -> bool {
        self.width * rhs.width <= u32::MAX && self.height * rhs.height <= u32::MAX
    }

    open spec fn mul_spec(self, rhs: DivFactors) -> Self {
        Size {
            width: (self.width * rhs.width) as u32,
            height: (self.height * rhs.height) as u32,
        }
    }
}

impl SubTake<u32> for Size<u32> {
    /// Takes `sub` out of each component that holds at least that much.
    fn sub_take(&mut self, sub: u32) -> (r: Self)
        ensures
            r.width == (if old(self).width >= sub { sub } else { 0 }),
            r.height == (if old(self).height >= sub { sub } else { 0 }),
            final(self).width == old(self).width - r.width,
            final(self).height == old(self).height - r.height,
    {
        let w = self.width.sub_take(sub);
        let h = self.height.sub_take(sub);
        Self::new(w, h)
    }
}

impl From<u32> for Size<u32> {
    fn from(value: u32) -> (r: Size<u32>) {
        Size::new(value, value)
    }
}

impl vstd::std_specs::convert::FromSpecImpl<u32> for Size<u32> {
    open spec fn obeys_from_spec() -> bool {
        true
    }

    open spec fn from_spec(v: u32) -> Size<u32> {
        Size { width: v, height: v }
    }
}

impl<T> From<(T, T)> for Size<T> {
    fn from(value: (T, T)) -> (r: Size<T>) {
        Size { width: value.0, height: value.1 }
    }
}

impl<T> vstd::std_specs::convert::FromSpecImpl<(T, T)> for Size<T> {
    open spec fn obeys_from_spec() -> bool {
        true
    }

    open spec fn from_spec(v: (T, T)) -> Size<T> {
        Size { width: v.0, height: v.1 }
    }
}

impl From<Size<u32>> for Size<Length> {
    fn from(value: Size<u32>) -> (r: Size<Length>) {
        Size::new(Length::Fixed(value.width), Length::Fixed(value.height))
    }
}

impl vstd::std_specs::convert::FromSpecImpl<Size<u32>> for Size<Length> {
    open spec fn obeys_from_spec() -> bool {
        true
    }

    open spec fn from_spec(v: Size<u32>) -> Size<Length> {
        Size { width: Length::Fixed(v.width), height: Length::Fixed(v.height) }
    }
}

impl<S: Copy> Axial for Size<S> {
    type Data = S;

    open spec fn sx(&self) -> S {
        self.width
    }

    open spec fn sy(&self) -> S {
        self.height
    }

    fn x(&self) -> (r: S) {
        self.width
    }

    fn y(&self) -> (r: S) {
        self.height
    }

    fn x_mut(&mut self) -> (r: &mut S) {
        &mut self.width
    }

    fn y_mut(&mut self) -> (r: &mut S) {
        &mut self.height
    }

    fn axial_new(x: S, y: S) -> (r: Self) {
        Self::new(x, y)
    }
}

/// Sizes with ordered components.
pub trait SizeExt: Copy {
    type Data;

    fn width(self) -> Self::Data;

    fn height(self) -> Self::Data;

    /// The largest square that fits.
    fn max_square(self) -> Self;
}

impl SizeExt for Size<u32> {
    type Data = u32;

    fn width(self) -> (r: u32)
        ensures
            r == self.width,
    {
        self.width
    }

    fn height(self) -> (r: u32)
        ensures
            r == self.height,
    {
        self.height
    }

    fn max_square(self) -> (r: Self)
        ensures
            r.width == r.height,
            r.width == (if self.width <= self.height { self.width } else { self.height }),
    {
        let m = if self.width <= self.height {
            self.width
        } else {
            self.height
        };
        Self::new_equal(m)
    }
}

impl Point {
    /// The point with its coordinates exchanged.
    pub fn swap_axes(self) -> (r: Self)
        ensures
            r.x == self.y,
            r.y == self.x,
    {
        Point::new(self.y, self.x)
    }

    pub fn swap_axes_if(self, cond: bool) -> (r: Self)
        ensures
            cond ==> r.x == self.y && r.y == self.x,
            !cond ==> r == self,
    {
        if cond {
            self.swap_axes()
        } else {
            self
        }
    }

    /// Clamps each coordinate into its own range; the lower bound wins when
    /// a range is inverted.
    pub fn clamp_axes(self, min: Self, max: Self) -> (r: Self)
        ensures
            r.x == clamp_i32(self.x, min.x, max.x),
            r.y == clamp_i32(self.y, min.y, max.y),
    {
        let x = if self.x <= max.x {
            self.x
        } else {
            max.x
        };
        let x = if x >= min.x {
            x
        } else {
            min.x
        };
        let y = if self.y <= max.y {
            self.y
        } else {
            max.y
        };
        let y = if y >= min.y {
            y
        } else {
            min.y
        };
        Point::new(x, y)
    }

    pub fn mirror_x(self) -> (r: Self)
        requires
            self.x != i32::MIN,
        ensures
            r.x == -self.x,
            r.y == self.y,
    {
        Point::new(-self.x, self.y)
    }

    pub fn mirror_y(self) -> (r: Self)
        requires
            self.y != i32::MIN,
        ensures
            r.x == self.x,
            r.y == -self.y,
    {
        Point::new(self.x, -self.y)
    }

    /// The point and its mirrors across the y axis, the x axis and both.
    pub fn each_mirror(self) -> (r: [Self; 4])
        requires
            self.x != i32::MIN,
            self.y != i32::MIN,
        ensures
            r@ == seq![
                self,
                Point { x: (-self.x) as i32, y: self.y },
                Point { x: self.x, y: (-self.y) as i32 },
                Point { x: (-self.x) as i32, y: (-self.y) as i32 },
            ],
    {
        [self, self.mirror_x(), self.mirror_y(), self.mirror_x().mirror_y()]
    }

    pub fn add_x(self, x: i32) -> (r: Self)
        requires
            fits_i32(self.x + x),
        ensures
            r.x == self.x + x,
            r.y == self.y,
    {
        Point::new(self.x + x, self.y)
    }

    pub fn add_y(self, y: i32) -> (r: Self)
        requires
            fits_i32(self.y + y),
        ensures
            r.x == self.x,
            r.y == self.y + y,
    {
        Point::new(self.x, self.y + y)
    }

    pub fn dot(self, other: Self) -> (r: i32)
        requires
            fits_i32(self.x * other.x),
            fits_i32(self.y * other.y),
            fits_i32(self.x * other.x + self.y * other.y),
        ensures
            r == self.x * other.x + self.y * other.y,
    {
        self.x * other.x + self.y * other.y
    }

    pub fn determinant(self, other: Self) -> (r: i32)
        requires
            fits_i32(self.x * other.y),
            fits_i32(self.y * other.x),
            fits_i32(self.x * other.y - self.y * other.x),
        ensures
            r == self.x * other.y - self.y * other.x,
    {
        self.x * other.y - self.y * other.x
    }

    /// The point moved by a size.
    pub fn add_size(self, rhs: Size<u32>) -> (r: Self)
        requires
            rhs.width <= i32::MAX,
            rhs.height <= i32::MAX,
            fits_i32(self.x + rhs.width),
            fits_i32(self.y + rhs.height),
        ensures
            r.x == self.x + rhs.width,
            r.y == self.y + rhs.height,
    {
        Point::new(self.x + rhs.width as i32, self.y + rhs.height as i32)
    }
}

/// `v` clamped to `max` and then to `min` (so `min` wins if `min > max`).
pub open spec fn clamp_i32(v: i32, min: i32, max: i32) -> i32 {
    let a = if v <= max { v } else { max };
    if a >= min { a } else { min }
}

impl TryFromSpecImpl<Size<u32>> for Point {
    open spec fn obeys_try_from_spec() -> bool {
        true
    }

    open spec fn try_from_spec(v: Size<u32>) -> Result<Self, TryFromIntError> {
        if v.width <= i32::MAX && v.height <= i32::MAX {
            Ok(Point { x: v.width as i32, y: v.height as i32 })
        } else {
            Err(arbitrary())
        }
    }
}

impl TryFrom<Size<u32>> for Point {
    type Error = TryFromIntError;

    fn try_from(value: Size<u32>) -> (r: Result<Self, TryFromIntError>) {
        let x = <i32 as TryFrom<u64>>::try_from(value.width as u64);
        match x {
            Ok(x) => {
                let y = <i32 as TryFrom<u64>>::try_from(value.height as u64);
                match y {
                    Ok(y) => Ok(Point::new(x, y)),
                    Err(e) => Err(e),
                }
            },
            Err(e) => Err(e),
        }
    }
}

/// Screen-oriented sign of one coordinate.
///
/// In math `(+,+)` is the top-right quadrant, on screen it is the bottom
/// right one.
#[derive(Debug, Clone, Copy, PartialEq, Eq, Structural)]
pub enum UnitV1 {
    Minus,
    Zero,
    Plus,
}

impl UnitV1 {
    /// The sign as a number: `-1`, `0` or `1`.
    pub open spec fn spec_value(self) -> i32 {
        match self {
            UnitV1::Minus => -1i32,
            UnitV1::Zero => 0i32,
            UnitV1::Plus => 1i32,
        }
    }

    /// The sign of `v`.
    pub open spec fn spec_from_i32(v: i32) -> UnitV1 {
        if v < 0 {
            UnitV1::Minus
        } else if v == 0 {
            UnitV1::Zero
        } else {
            UnitV1::Plus
        }
    }

    pub fn value(self) -> (r: i32)
        ensures
            r == self.spec_value(),
    {
        match self {
            UnitV1::Minus => -1,
            UnitV1::Zero => 0,
            UnitV1::Plus => 1,
        }
    }
}

impl From<i32> for UnitV1 {
    fn from(value: i32) -> (r: UnitV1) {
        if value <= -1 {
            UnitV1::Minus
        } else if value == 0 {
            UnitV1::Zero
        } else {
            UnitV1::Plus
        }
    }
}

impl vstd::std_specs::convert::FromSpecImpl<i32> for UnitV1 {
    open spec fn obeys_from_spec() -> bool {
        true
    }

    open spec fn from_spec(v: i32) -> UnitV1 {
        UnitV1::spec_from_i32(v)
    }
}

impl From<UnitV1> for i32 {
    fn from(value: UnitV1) -> (r: i32) {
        value.value()
    }
}

impl vstd::std_specs::convert::FromSpecImpl<UnitV1> for i32 {
    open spec fn obeys_from_spec() -> bool {
        true
    }

    open spec fn from_spec(v: UnitV1) -> i32 {
        v.spec_value()
    }
}

impl UnitV1 {
    /// The opposite sign.
    pub fn negated(self) -> (r: Self)
        ensures
            r == UnitV1::spec_from_i32(-self.spec_value() as i32),
    {
        match self {
            UnitV1::Minus => UnitV1::Plus,
            UnitV1::Zero => UnitV1::Zero,
            UnitV1::Plus => UnitV1::Minus,
        }
    }
}

impl core::ops::Neg for UnitV1 {
    type Output = Self;

    fn neg(self) -> (r: Self) {
        match self {
            UnitV1::Minus => UnitV1::Plus,
            UnitV1::Zero => UnitV1::Zero,
            UnitV1::Plus => UnitV1::Minus,
        }
    }
}

impl NegSpecImpl for UnitV1 {
    open spec fn obeys_neg_spec() -> bool {
        true
    }

    open spec fn neg_req(self) -> bool {
        true
    }

    open spec fn neg_spec(self) -> UnitV1 {
        UnitV1::spec_from_i32(-self.spec_value() as i32)
    }
}

impl core::ops::Add<i32> for UnitV1 {
    type Output = i32;

    fn add(self, rhs: i32) -> (r: i32) {
        self.value() + rhs
    }
}

impl AddSpecImpl<i32> for UnitV1 {
    open spec fn obeys_add_spec() -> bool {
        true
    }

    open spec fn add_req(self, rhs: i32) -> bool {
        fits_i32(self.spec_value() + rhs)
    }

    open spec fn add_spec(self, rhs: i32) -> i32 {
        (self.spec_value() + rhs) as i32
    }
}

impl core::ops::Sub<i32> for UnitV1 {
    type Output = i32;

    fn sub(self, rhs: i32) -> (r: i32) {
        self.value() - rhs
    }
}

impl SubSpecImpl<i32> for UnitV1 {
    open spec fn obeys_sub_spec() -> bool {
        true
    }

    open spec fn sub_req(self, rhs: i32) -> bool {
        fits_i32(self.spec_value() - rhs)
    }

    open spec fn sub_spec(self, rhs: i32) -> i32 {
        (self.spec_value() - rhs) as i32
    }
}

impl core::ops::Mul<i32> for UnitV1 {
    type Output = i32;

    fn mul(self, rhs: i32) -> (r: i32) {
        match self {
            UnitV1::Minus => -rhs,
            UnitV1::Zero => 0,
            UnitV1::Plus => rhs,
        }
    }
}

impl MulSpecImpl<i32> for UnitV1 {
    open spec fn obeys_mul_spec() -> bool {
        true
    }

    open spec fn mul_req(self, rhs: i32) -> bool {
        self == UnitV1::Minus ==> rhs != i32::MIN
    }

    open spec fn mul_spec(self, rhs: i32) -> i32 {
        match self {
            UnitV1::Minus => -rhs as i32,
            UnitV1::Zero => 0,
            UnitV1::Plus => rhs,
        }
    }
}

impl core::ops::Div<i32> for UnitV1 {
    type Output = i32;

    fn div(self, rhs: i32) -> (r: i32) {
        if rhs == 1 {
            self.value()
        } else if rhs == -1 {
            match self {
                UnitV1::Minus => 1,
                UnitV1::Zero => 0,
                UnitV1::Plus => -1,
            }
        } else {
            0
        }
    }
}

impl DivSpecImpl<i32> for UnitV1 {
    open spec fn obeys_div_spec() -> bool {
        true
    }

    open spec fn div_req(self, rhs: i32) -> bool {
        rhs != 0
    }

    open spec fn div_spec(self, rhs: i32) -> i32 {
        // Division truncates toward zero and the numerator is -1, 0 or 1.
        if rhs == 1 {
            self.spec_value()
        } else if rhs == -1 {
            -self.spec_value() as i32
        } else {
            0
        }
    }
}

/// A screen-oriented unit vector: a sign per coordinate.
#[derive(Debug, Clone, Copy, PartialEq, Eq, Structural)]
pub struct UnitV2 {
    pub x: UnitV1,
    pub y: UnitV1,
}

impl Axial for UnitV2 {
    type Data = UnitV1;

    open spec fn sx(&self) -> UnitV1 {
        self.x
    }

    open spec fn sy(&self) -> UnitV1 {
        self.y
    }

    fn x(&self) -> (r: UnitV1) {
        self.x
    }

    fn y(&self) -> (r: UnitV1) {
        self.y
    }

    fn x_mut(&mut self) -> (r: &mut UnitV1) {
        &mut self.x
    }

    fn y_mut(&mut self) -> (r: &mut UnitV1) {
        &mut self.y
    }

    fn axial_new(x: UnitV1, y: UnitV1) -> (r: Self) {
        Self::const_new(x, y)
    }
}

impl UnitV2 {
    pub fn left() -> (r: Self)
        ensures
            r == (UnitV2 { x: UnitV1::Minus, y: UnitV1::Zero }),
    {
        Self::const_new(UnitV1::Minus, UnitV1::Zero)
    }

    pub fn right() -> (r: Self)
        ensures
            r == (UnitV2 { x: UnitV1::Plus, y: UnitV1::Zero }),
    {
        Self::const_new(UnitV1::Plus, UnitV1::Zero)
    }

    pub fn up() -> (r: Self)
        ensures
            r == (UnitV2 { x: UnitV1::Zero, y: UnitV1::Minus }),
    {
        Self::const_new(UnitV1::Zero, UnitV1::Minus)
    }

    pub fn down() -> (r: Self)
        ensures
            r == (UnitV2 { x: UnitV1::Zero, y: UnitV1::Plus }),
    {
        Self::const_new(UnitV1::Zero, UnitV1::Plus)
    }

    pub fn const_new(x: UnitV1, y: UnitV1) -> (r: Self)
        ensures
            r.x == x,
            r.y == y,
    {
        Self { x, y }
    }

    /// The unit vector of the signs of `x` and `y`.
    pub fn new(x: i32, y: i32) -> (r: Self)
        ensures
            r.x == UnitV1::spec_from_i32(x),
            r.y == UnitV1::spec_from_i32(y),
    {
        Self { x: UnitV1::from(x), y: UnitV1::from(y) }
    }

    pub fn destruct(self) -> (r: (i32, i32))
        ensures
            r == (self.x.spec_value(), self.y.spec_value()),
    {
        (self.x.value(), self.y.value())
    }

    /// The vector scaled by `rhs`.
    pub fn scale(self, rhs: i32) -> (r: Point)
        requires
            rhs != i32::MIN,
        ensures
            r.x == self.x.spec_value() * rhs,
            r.y == self.y.spec_value() * rhs,
    {
        Point::new(self.x.value() * rhs, self.y.value() * rhs)
    }
}

impl core::ops::Neg for UnitV2 {
    type Output = Self;

    fn neg(self) -> (r: Self) {
        Self::const_new(self.x.negated(), self.y.negated())
    }
}

impl NegSpecImpl for UnitV2 {
    open spec fn obeys_neg_spec() -> bool {
        true
    }

    open spec fn neg_req(self) -> bool {
        true
    }

    open spec fn neg_spec(self) -> UnitV2 {
        UnitV2 {
            x: UnitV1::spec_from_i32(-self.x.spec_value() as i32),
            y: UnitV1::spec_from_i32(-self.y.spec_value() as i32),
        }
    }
}

impl Point {
    /// Each coordinate multiplied by the sign of the unit vector on that axis.
    pub fn mul_unit(self, rhs: UnitV2) -> (r: Point)
        requires
            self.x != i32::MIN,
            self.y != i32::MIN,
        ensures
            r.x == self.x * rhs.x.spec_value(),
            r.y == self.y * rhs.y.spec_value(),
    {
        Point::new(self.x * rhs.x.value(), self.y * rhs.y.value())
    }
}

/// Selecting a per-corner value by a diagonal unit vector.
pub trait ByUnitV2 {
    type Output;

    fn by_unit_v(&self, unit_v: UnitV2) -> Self::Output;
}

impl ByUnitV2 for CornerRadii {
    type Output = Option<Size<u32>>;

    fn by_unit_v(&self, unit_v: UnitV2) -> (r: Option<Size<u32>>)
        ensures
            r == (match (unit_v.x, unit_v.y) {
                (UnitV1::Minus, UnitV1::Minus) => Some(self.top_left),
                (UnitV1::Plus, UnitV1::Minus) => Some(self.top_right),
                (UnitV1::Minus, UnitV1::Plus) => Some(self.bottom_left),
                (UnitV1::Plus, UnitV1::Plus) => Some(self.bottom_right),
                _ => None,
            }),
    {
        match unit_v.destruct() {
            (-1, -1) => Some(self.top_left),
            (1, -1) => Some(self.top_right),
            (-1, 1) => Some(self.bottom_left),
            (1, 1) => Some(self.bottom_right),
            _ => None,
        }
    }
}

} // verus!
