//! The locations of the settings file and of the command file.
use vstd::prelude::*;
use crate::bindings::{joined_path, path_join};
use crate::text::own;

verus! {

/// The application's directory, under the user's home.
pub const APP_HOME_DIR: &'static str = ".config/cl";

/// The name of the command file.
pub const COMMAND_FILE: &'static str = "commands.toml";

/// The name of the settings file.
pub const CONFIG_FILE: &'static str = "config.toml";

/// The locations of the application's files; a path is kept as text.
#[derive(Debug)]
pub struct FileConfig {
    pub config_home_path: Option<String>,
    pub command_file_path: Option<String>,
}

impl FileConfig {
    /// The locations under the given application directory: the directory
    /// itself, and the command file in it.
    pub fn new(home_path: &str) -> (r: FileConfig)
        ensures
            r.config_home_path matches Some(h) && h@ == home_path@,
            r.command_file_path matches Some(c) && c@ == joined_path(home_path@, COMMAND_FILE@),
    {
        FileConfig {
            config_home_path: Some(own(home_path)),
            command_file_path: Some(path_join(home_path, COMMAND_FILE)),
        }
    }
}

/// The application's directory under the given home directory.
pub fn app_home_dir(home: &str) -> (r: String)
    ensures
        r@ == joined_path(home@, APP_HOME_DIR@),
{
    path_join(home, APP_HOME_DIR)
}

/// The settings file in the given application directory.
pub fn config_file_path(app_home: &str) -> (r: String)
    ensures
        r@ == joined_path(app_home@, CONFIG_FILE@),
{
    path_join(app_home, CONFIG_FILE)
}

} // verus!
