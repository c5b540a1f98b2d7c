//! The terminal interface: the state behind each screen and the rules
//! that keys and events follow. Drawing and reading the terminal are done
//! elsewhere.
pub mod contexts;
pub mod entities;
pub mod key_handler;
pub mod list_state;
pub mod widgets;
