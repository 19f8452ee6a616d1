//! Page identifiers.
use vstd::prelude::*;

verus! {

/// What identifies a page of the interface.
pub trait PageId: Default + Copy + Eq + core::hash::Hash + core::fmt::Debug {}

impl<T: Default + Copy + Eq + core::hash::Hash + core::fmt::Debug> PageId for T {}

/// The identifier of the only page of a one-page interface.
#[derive(Default, Clone, Copy, PartialEq, Eq, PartialOrd, Ord, Hash, Debug)]
pub struct SinglePage;

} // verus!
