//! Widget styles and the state they are selected by.
use crate::render::Color;
use vstd::prelude::*;

pub mod stylist;

verus! {

/// A style with a base value.
pub trait Style: Sized {
    fn base() -> Self;
}

/// The interaction state a style is selected for.
#[derive(Clone, Copy, Debug, PartialEq, Eq, Structural)]
pub struct StylePseudoClass {
    pub hovered: bool,
    pub pressed: bool,
    pub focused: bool,
    pub active: bool,
}

impl StylePseudoClass {
    pub fn hovered(self, hovered: bool) -> (r: Self)
        ensures
            r == (StylePseudoClass { hovered, ..self }),
    {
        let mut s = self;
        s.hovered = hovered;
        s
    }

    pub fn pressed(self, pressed: bool) -> (r: Self)
        ensures
            r == (StylePseudoClass { pressed, ..self }),
    {
        let mut s = self;
        s.pressed = pressed;
        s
    }

    pub fn focused(self, focused: bool) -> (r: Self)
        ensures
            r == (StylePseudoClass { focused, ..self }),
    {
        let mut s = self;
        s.focused = focused;
        s
    }

    pub fn active(self, active: bool) -> (r: Self)
        ensures
            r == (StylePseudoClass { active, ..self }),
    {
        let mut s = self;
        s.active = active;
        s
    }
}

impl Default for StylePseudoClass {
    fn default() -> (r: Self)
        ensures
            r == (StylePseudoClass { hovered: false, pressed: false, focused: false, active: false }),
    {
        Self { hovered: false, pressed: false, focused: false, active: false }
    }
}

/// What a style is selected by.
#[derive(Clone, Copy, Debug, PartialEq, Eq, Structural)]
pub struct StyleSelector {
    pub pseudoclass: StylePseudoClass,
}

/// A stylist that paints every widget in one accent color.
#[derive(Clone, Copy, PartialEq, Eq, Debug)]
pub struct AccentStyler<C: Color> {
    pub accent: C,
}

impl<C: Color> AccentStyler<C> {
    pub fn new(accent: C) -> (r: Self)
        ensures
            r.accent == accent,
    {
        Self { accent }
    }
}

} // verus!
