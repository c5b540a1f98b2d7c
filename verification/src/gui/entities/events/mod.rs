//! The events the interface sends itself.
pub mod app_events;
