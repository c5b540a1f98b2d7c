//! The state of the form and of the popups in the layout where the form
//! edits stored items by name.
pub mod context;
pub mod ops_context;
pub mod popup;
pub mod popup_state;
