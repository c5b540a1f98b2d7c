//! The selected field of the form.
use vstd::prelude::*;
use crate::gui::entities::field::FieldType;

verus! {

/// Which field of the form is selected, if any.
#[derive(Clone, Copy, Debug, Default, PartialEq, Eq, Structural)]
pub struct FieldState {
    pub selected: Option<FieldType>,
}

impl FieldState {
    /// The selected field.
    pub fn selected(&self) -> (r: Option<FieldType>)
        ensures
            r == self.selected,
    {
        self.selected
    }

    /// Selects a field, or none.
    pub fn select(&mut self, field_type: Option<FieldType>)
        ensures
            final(self).selected == field_type,
    {
        self.selected = field_type;
    }
}

} // verus!
