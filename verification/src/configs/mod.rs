//! Where the application keeps its files.
pub mod file_config;
