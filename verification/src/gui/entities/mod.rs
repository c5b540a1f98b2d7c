//! The parts of the interface's state.
pub mod answer_state;
pub mod commands_context;
pub mod context;
pub mod contexts;
pub mod event_handler;
pub mod events;
pub mod field;
pub mod field_state;
pub mod namespaces_context;
pub mod popup;
pub mod popup_context;
pub mod state;
pub mod namespace_state;
pub mod states;
pub mod terminal;
pub mod ui_context;
pub mod ui_state;
