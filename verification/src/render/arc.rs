//! Kinds of color in anti-aliased primitives.
use vstd::prelude::*;

verus! {

/// Which of a primitive's colors a pixel takes.
#[derive(Clone, Copy, Debug, PartialEq, Eq, Structural)]
pub enum PrimitiveColorKind {
    Stroke,
    Fill,
}

} // verus!
