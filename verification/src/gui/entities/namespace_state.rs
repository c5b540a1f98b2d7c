//! The selected namespace.
use vstd::prelude::*;

verus! {

/// The position of the selected namespace.
#[derive(Clone, Copy, Debug, Default, PartialEq, Eq, Structural)]
pub struct NamespaceState {
    pub selected: usize,
}

impl NamespaceState {
    /// The selected position.
    pub fn selected(&self) -> (r: usize)
        ensures
            r == self.selected,
    {
        self.selected
    }

    /// Selects a position.
    pub fn select(&mut self, index: usize)
        ensures
            final(self).selected == index,
    {
        self.selected = index;
    }
}

} // verus!
