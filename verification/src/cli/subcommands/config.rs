//! The settings subcommand: which setting a call changes, and what it
//! prints once the change is made.
use vstd::prelude::*;
use crate::text::{concat, contains_str, own};

verus! {

/// The log levels offered on the command line.
#[derive(Clone, Copy, Debug, PartialEq, Eq, Structural)]
pub enum LogLevel {
    Debug,
    Info,
    Error,
}

/// The log levels the settings file stores.
#[derive(Clone, Copy, Debug, PartialEq, Eq, Structural)]
pub enum ConfigLogLevel {
    Debug,
    Info,
    Error,
}

impl LogLevel {
    /// The stored level with the same name.
    pub fn as_config_enum(&self) -> (r: ConfigLogLevel)
        ensures
            *self == LogLevel::Debug ==> r == ConfigLogLevel::Debug,
            *self == LogLevel::Info ==> r == ConfigLogLevel::Info,
            *self == LogLevel::Error ==> r == ConfigLogLevel::Error,
    {
        match self {
            LogLevel::Debug => ConfigLogLevel::Debug,
            LogLevel::Info => ConfigLogLevel::Info,
            LogLevel::Error => ConfigLogLevel::Error,
        }
    }

    /// The name of the level.
    pub fn name(&self) -> (r: &'static str)
        ensures
            *self == LogLevel::Debug ==> r@ == "Debug"@,
            *self == LogLevel::Info ==> r@ == "Info"@,
            *self == LogLevel::Error ==> r@ == "Error"@,
    {
        match self {
            LogLevel::Debug => "Debug",
            LogLevel::Info => "Info",
            LogLevel::Error => "Error",
        }
    }
}

/// The options of the zsh widget subcommand.
#[derive(Clone, Copy, Debug)]
pub struct Widget {
    pub install: bool,
}

/// The subcommands of the settings subcommand.
#[derive(Clone, Copy, Debug)]
pub enum ConfigSubcommand {
    ZshWidget(Widget),
}

/// The options of the settings subcommand.
pub struct Config {
    pub default_quiet_mode: Option<bool>,
    pub default_log_level: Option<LogLevel>,
    pub highlight_matches: Option<bool>,
    pub vi_keybindings: Option<bool>,
    pub subcommand: Option<ConfigSubcommand>,
}

/// What a call of the settings subcommand does.
#[derive(Clone, Copy, Debug, PartialEq, Eq, Structural)]
pub enum ConfigAction {
    InstallZshWidget,
    SetQuietMode(bool),
    SetLogLevel(LogLevel),
    SetHighlight(bool),
    SetViKeybindings(bool),
    PrintSettings,
}

/// The action the options ask for: the first one given, in the order
/// widget, quiet mode, log level, highlight, Vi keybindings; printing the
/// settings when none is given.
pub open spec fn chosen_action(c: Config) -> ConfigAction {
    if c.subcommand is Some {
        ConfigAction::InstallZshWidget
    } else if c.default_quiet_mode is Some {
        ConfigAction::SetQuietMode(c.default_quiet_mode->0)
    } else if c.default_log_level is Some {
        ConfigAction::SetLogLevel(c.default_log_level->0)
    } else if c.highlight_matches is Some {
        ConfigAction::SetHighlight(c.highlight_matches->0)
    } else if c.vi_keybindings is Some {
        ConfigAction::SetViKeybindings(c.vi_keybindings->0)
    } else {
        ConfigAction::PrintSettings
    }
}

impl Config {
    /// The action these options ask for.
    pub fn action(&self) -> (r: ConfigAction)
        ensures
            r == chosen_action(*self),
    {
        if self.subcommand.is_some() {
            ConfigAction::InstallZshWidget
        } else if let Some(quiet) = self.default_quiet_mode {
            ConfigAction::SetQuietMode(quiet)
        } else if let Some(level) = self.default_log_level {
            ConfigAction::SetLogLevel(level)
        } else if let Some(highlight) = self.highlight_matches {
            ConfigAction::SetHighlight(highlight)
        } else if let Some(enable) = self.vi_keybindings {
            ConfigAction::SetViKeybindings(enable)
        } else {
            ConfigAction::PrintSettings
        }
    }
}

/// `true` or `false`, as a `bool` is written.
pub open spec fn bool_text(b: bool) -> Seq<char> {
    if b {
        "true"@
    } else {
        "false"@
    }
}

/// The name of a log level.
pub open spec fn level_text(l: LogLevel) -> Seq<char> {
    match l {
        LogLevel::Debug => "Debug"@,
        LogLevel::Info => "Info"@,
        LogLevel::Error => "Error"@,
    }
}

/// The line printed once a setting is changed.
pub open spec fn confirmation_text(a: ConfigAction) -> Option<Seq<char>> {
    match a {
        ConfigAction::SetQuietMode(b) => Some("quiet mode set to "@ + bool_text(b)),
        ConfigAction::SetLogLevel(l) => Some("log level set to "@ + level_text(l)),
        ConfigAction::SetHighlight(b) => Some("highlight matches set to "@ + bool_text(b)),
        ConfigAction::SetViKeybindings(b) => Some("Vi keybindings set to "@ + bool_text(b)),
        _ => None,
    }
}

fn bool_str(b: bool) -> (r: &'static str)
    ensures
        r@ == bool_text(b),
{
    if b {
        "true"
    } else {
        "false"
    }
}

impl ConfigAction {
    /// The line printed once the setting is changed; none for the widget
    /// and for printing the settings.
    pub fn confirmation(&self) -> (r: Option<String>)
        ensures
            match r {
                Some(s) => confirmation_text(*self) == Some(s@),
                None => confirmation_text(*self) is None,
            },
    {
        match self {
            ConfigAction::SetQuietMode(b) => Some(concat("quiet mode set to ", bool_str(*b))),
            ConfigAction::SetLogLevel(l) => Some(concat("log level set to ", l.name())),
            ConfigAction::SetHighlight(b) => Some(concat("highlight matches set to ", bool_str(*b))),
            ConfigAction::SetViKeybindings(b) => Some(concat("Vi keybindings set to ", bool_str(*b))),
            _ => None,
        }
    }
}

/// Whether the widget may be installed for the given `$SHELL`: an unset
/// shell passes, a set one must name zsh.
pub open spec fn shell_refusal(shell: Option<Seq<char>>) -> Option<Seq<char>> {
    match shell {
        Some(s) => if crate::text::contains_seq(s, "zsh"@) {
            None
        } else {
            Some("Cannot install zsh widget on non zsh shell! Actual $SHELL value is "@ + s)
        },
        None => None,
    }
}

/// Checks the `$SHELL` value before installing the widget.
pub fn check_shell(shell: Option<String>) -> (r: Result<(), String>)
    ensures
        match r {
            Ok(()) => shell_refusal(crate::command::opt_str(shell)) is None,
            Err(m) => shell_refusal(crate::command::opt_str(shell)) == Some(m@),
        },
{
    match shell {
        Some(s) => if contains_str(s.as_str(), "zsh") {
            Ok(())
        } else {
            Err(concat("Cannot install zsh widget on non zsh shell! Actual $SHELL value is ", s.as_str()))
        },
        None => Ok(()),
    }
}

} // verus!
