//! The subcommands of the command line.
pub mod config;
pub mod exec;
pub mod exec_equals;
pub mod misc;
pub mod share;
