//! The form of the operations screens: the same items, focus and stored
//! item as `Context`, under the name the operations screens use.
use vstd::prelude::*;
pub use crate::gui::contexts::context::Item;
use crate::gui::contexts::context::Context;

verus! {

/// The form of the operations screens.
pub type OpsContext = Context;

} // verus!
