//! The command line: preparing a stored command with the arguments given
//! to it.
pub mod subcommands;
pub mod utils;
