//! The contexts the screens read and change: namespaces, commands, the
//! form and the popup.
pub mod application_context;
pub mod commands_context;
pub mod field_context;
pub mod namespaces_context;
pub mod popup_context;

use vstd::prelude::*;

verus! {

/// A list whose selection moves forward and backward, wrapping around.
pub trait Selectable {
    /// Whether there is an item to move the selection to.
    spec fn has_items(&self) -> bool;

    /// Selects the next item, or the first after the last.
    fn next(&mut self)
        requires
            old(self).has_items(),
    ;

    /// Selects the previous item, or the last before the first.
    fn previous(&mut self)
        requires
            old(self).has_items(),
    ;
}

} // verus!
