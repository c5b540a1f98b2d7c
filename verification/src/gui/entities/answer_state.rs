//! The selected answer of a popup.
use vstd::prelude::*;

verus! {

/// Which answer of a popup is selected, if any.
#[derive(Clone, Copy, Debug, Default, PartialEq, Eq, Structural)]
pub struct AnswerState {
    pub selected: Option<usize>,
}

impl AnswerState {
    /// The selected answer.
    pub fn selected(&self) -> (r: Option<usize>)
        ensures
            r == self.selected,
    {
        self.selected
    }

    /// Selects an answer, or none.
    pub fn select(&mut self, index: Option<usize>)
        ensures
            final(self).selected == index,
    {
        self.selected = index;
    }
}

} // verus!
