//! A command organizer: stored shell commands grouped by namespace and
//! alias, with the rules for filtering, editing and running them.
use vstd::prelude::*;

pub mod bindings;
pub mod cli;
pub mod command;
pub mod command_item;
pub mod commands;
pub mod configs;
pub mod fuzzy;
pub mod gui;
pub mod order;
pub mod text;

verus! {

} // verus!
