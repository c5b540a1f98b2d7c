//! The selection in a list shown on screen.
use vstd::prelude::*;

verus! {

/// Which item of a list is selected, if any.
#[derive(Clone, Copy, Debug, Default, PartialEq, Eq, Structural)]
pub struct ListState {
    selected: Option<usize>,
}

impl ListState {
    /// The selected position.
    pub closed spec fn selection(&self) -> Option<usize> {
        self.selected
    }

    /// A list with nothing selected.
    pub fn new() -> (r: ListState)
        ensures
            r.selection() is None,
    {
        ListState { selected: None }
    }

    /// The selected position.
    pub fn selected(&self) -> (r: Option<usize>)
        ensures
            r == self.selection(),
    {
        self.selected
    }

    /// Selects a position, or nothing.
    pub fn select(&mut self, index: Option<usize>)
        ensures
            final(self).selection() == index,
    {
        self.selected = index;
    }
}

} // verus!
