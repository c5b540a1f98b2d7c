//! The state of the screens and of the form.
pub mod field_state;
pub mod ui_state;
pub mod vi_state;
