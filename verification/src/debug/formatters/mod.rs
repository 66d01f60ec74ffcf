//! Formatters that show values of particular types.
use vstd::prelude::*;

pub mod cpp;
pub mod default;

verus! {

/// How many children a value shows when it is expanded.
#[derive(Clone, Copy, PartialEq, Eq, Structural, Debug)]
pub struct ChildCounts {
    /// Children addressed by position (array elements).
    pub indexed: usize,
    /// Children addressed by name (members).
    pub named: usize,
}

impl ChildCounts {
    /// No children at all.
    pub fn none() -> (r: ChildCounts)
        ensures
            r.indexed == 0 && r.named == 0,
    {
        ChildCounts { indexed: 0, named: 0 }
    }

    /// Whether the value has no children.
    pub fn is_empty(&self) -> (r: bool)
        ensures
            r == (self.indexed == 0 && self.named == 0),
    {
        self.indexed == 0 && self.named == 0
    }

    /// All children, named first and then indexed.
    pub fn total(&self) -> (r: usize)
        requires
            self.indexed + self.named <= usize::MAX,
        ensures
            r == self.indexed + self.named,
    {
        self.indexed + self.named
    }
}

impl Default for ChildCounts {
    fn default() -> (r: ChildCounts)
        ensures
            r.indexed == 0 && r.named == 0,
    {
        ChildCounts::none()
    }
}

} // verus!
