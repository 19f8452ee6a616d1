//! Bounded values.
use vstd::prelude::*;

verus! {

/// A `u8` kept within `MIN..=MAX`, moved in steps of `STEP`.
#[derive(Clone, Copy, PartialEq, Eq, Debug)]
pub struct RangeU8<const MIN: u8, const MAX: u8, const STEP: u8>(pub u8);

/// `v` clamped into `min..=max`.
pub open spec fn clamp_u8(v: int, min: u8, max: u8) -> int {
    if v < min {
        min as int
    } else if v > max {
        max as int
    } else {
        v
    }
}

impl RangeU8<0, 255, 1> {
    /// Any `u8`.
    pub fn new_full_range(value: u8) -> (r: Self)
        ensures
            r.0 == value,
    {
        Self::new_clamped(value)
    }
}

impl<const MIN: u8, const MAX: u8, const STEP: u8> RangeU8<MIN, MAX, STEP> {
    /// `value` clamped into the range.
    pub fn new_clamped(value: u8) -> (r: Self)
        requires
            MIN <= MAX,
        ensures
            r.0 == clamp_u8(value as int, MIN, MAX),
    {
        let v = if value < MIN {
            MIN
        } else if value > MAX {
            MAX
        } else {
            value
        };
        Self(v)
    }

    /// The same value in a range with another minimum.
    pub fn with_min<const NEW_MIN: u8>(self) -> (r: RangeU8<NEW_MIN, MAX, STEP>)
        requires
            NEW_MIN <= MAX,
        ensures
            r.0 == clamp_u8(self.0 as int, NEW_MIN, MAX),
    {
        RangeU8::<NEW_MIN, MAX, STEP>::new_clamped(self.0)
    }

    /// The same value in a range with another maximum.
    pub fn with_max<const NEW_MAX: u8>(self) -> (r: RangeU8<MIN, NEW_MAX, STEP>)
        requires
            MIN <= NEW_MAX,
        ensures
            r.0 == clamp_u8(self.0 as int, MIN, NEW_MAX),
    {
        RangeU8::<MIN, NEW_MAX, STEP>::new_clamped(self.0)
    }

    /// The same value with another step.
    pub fn with_step<const NEW_STEP: u8>(self) -> (r: RangeU8<MIN, MAX, NEW_STEP>)
        requires
            MIN <= MAX,
        ensures
            r.0 == clamp_u8(self.0 as int, MIN, MAX),
    {
        RangeU8::<MIN, MAX, NEW_STEP>::new_clamped(self.0)
    }

    /// `value` clamped into the range.
    pub fn from_i64(value: i64) -> (r: Self)
        requires
            MIN <= MAX,
        ensures
            r.0 == clamp_u8(value as int, MIN, MAX),
    {
        let v = if value < MIN as i64 {
            MIN
        } else if value > MAX as i64 {
            MAX
        } else {
            value as u8
        };
        Self(v)
    }

    /// The value moved by `offset`, clamped into the range.
    pub fn offset(&self, offset: i32) -> (r: Self)
        requires
            MIN <= MAX,
        ensures
            r.0 == clamp_u8(self.0 + offset, MIN, MAX),
    {
        Self::from_i64(self.0 as i64 + offset as i64)
    }
}

} // verus!
