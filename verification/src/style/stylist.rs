//! Stylists: what turns a base style into the style a widget is drawn with.
use crate::style::{Style, StyleSelector};
use core::marker::PhantomData;
use vstd::prelude::*;

verus! {

/// Styles a widget of style `S`.
pub trait Stylist<S: Style> {
    /// The style the stylist gives a widget of style `base` in the state
    /// `selector`.
    spec fn spec_style(&self, base: S, selector: StyleSelector) -> S;

    fn style(&self, base: &S, selector: &StyleSelector) -> (r: S)
        ensures
            r == self.spec_style(*base, *selector),
    ;
}

/// Applies a child stylist on top of what a parent stylist gives.
pub struct InheritedStylist<S: Style, PS: Stylist<S>, CS: Stylist<S>> {
    pub parent: PS,
    pub child: CS,
    pub _style: PhantomData<S>,
}

impl<S: Style, PS: Stylist<S>, CS: Stylist<S>> InheritedStylist<S, PS, CS> {
    pub fn new(parent: PS, child: CS) -> (r: Self)
        ensures
            r.parent == parent,
            r.child == child,
    {
        Self { parent, child, _style: PhantomData }
    }
}

impl<S: Style, PS: Stylist<S>, CS: Stylist<S>> Stylist<S> for InheritedStylist<S, PS, CS> {
    /// The child's style of the parent's style.
    open spec fn spec_style(&self, base: S, selector: StyleSelector) -> S {
        self.child.spec_style(self.parent.spec_style(base, selector), selector)
    }

    fn style(&self, base: &S, selector: &StyleSelector) -> (r: S) {
        let inherited = self.parent.style(base, selector);
        self.child.style(&inherited, selector)
    }
}

} // verus!
