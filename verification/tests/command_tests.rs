use cl::command::{Command, CommandBuilder, CommandError};
use cl::command_item::{CommandItem, CommandItemBuilder};
use cl::commands::Commands;
use cl::cli::subcommands::misc::{finder_lines, summary_lines, Misc};
use cl::cli::subcommands::share::{duplicates_report, export_list, plan_import};
use cl::cli::subcommands::config::{check_shell, Config, ConfigAction, LogLevel, ConfigLogLevel};
use cl::configs::file_config::FileConfig;
use cl::fuzzy::Fuzzy;

fn build_default_command() -> Command {
    let mut command = CommandBuilder::default();
    command
        .tags(Some(vec!["tag1"]))
        .alias("alias")
        .namespace("namespace")
        .description(Some("multiline\ndescription"))
        .command("command");

    command.build()
}

#[test]
fn command_should_get_tags_as_str() {
    let command = build_default_command();
    let tags = command.tags_as_string();
    assert_eq!(String::from("tag1"), tags)
}

#[test]
fn should_get_namespace_as_string() {
    let command = build_default_command();
    let description = command.description();
    assert_eq!(description, "multiline\ndescription")
}

#[test]
fn command_should_validate_the_command() {
    let command = build_default_command();

    assert!(command.validate().is_ok());
}

#[test]
fn should_not_validate_the_command_with_invalid_alias() {
    let mut invalid_command = CommandBuilder::default();
    invalid_command
        .tags(Some(vec!["tag1"]))
        .alias("invalid lias")
        .namespace("namespace")
        .description(Some("description"))
        .command("command");

    let invalid_command = invalid_command.build();

    let result = invalid_command.validate();
    assert!(result.is_err());
    let error_msg = result.unwrap_err().to_string();
    assert_eq!(CommandError::AliasWithWhitespaces.to_string(), error_msg)
}

#[test]
fn should_not_validate_the_command_with_missing_mandatory_field() {
    let mut invalid_command = CommandBuilder::default();
    invalid_command
        .tags(Some(vec!["tag1"]))
        .alias("alias")
        .description(Some("description"))
        .command("command");

    let invalid_command = invalid_command.build();

    let result = invalid_command.validate();
    assert!(result.is_err());
    let error_msg = result.unwrap_err().to_string();
    assert_eq!(CommandError::EmptyCommand.to_string(), error_msg)
}

#[test]
fn command_should_return_an_error_when_command_is_not_valid() {
    let mut command = build_default_command();
    command.alias = String::from("");
    command.command = String::from("");
    command.namespace = String::from("");

    assert!(command.validate().is_err());
}

#[test]
fn should_return_a_boolean_based_on_named_parameters() {
    let mut command = build_default_command();

    assert!(!command.has_named_parameter());

    command.command = String::from("echo \"hello, #{name}\"");

    assert!(command.has_named_parameter())
}

#[test]
fn command_should_sort_its_tags_and_report_whitespace_in_the_namespace() {
    let mut command = build_default_command();
    command.tags = Some(vec![String::from("b"), String::from("a")]);
    assert_eq!(command.tags_as_string(), "a, b");
    command.tags = None;
    assert_eq!(command.tags_as_string(), "");
    command.namespace = String::from("my namespace");
    assert_eq!(
        command.validate().unwrap_err().to_string(),
        "The namespace must not contain whitespace as the application uses it to identify the command"
    );
}

#[test]
fn command_lookup_should_drop_repeated_words() {
    let mut command = build_default_command();
    command.alias = String::from("git");
    command.namespace = String::from("git");
    command.command = String::from("git log");
    command.description = None;
    command.tags = None;
    assert_eq!(command.lookup_string(), "git log");
}

fn build_item() -> CommandItem {
    let mut command = CommandItemBuilder::default();
    command
        .tags(Some(vec![String::from("tag1")]))
        .alias(String::from("test alias"))
        .namespace(String::from("test namespace"))
        .description(Some(String::from("test description")))
        .command(String::from("test command"));

    command.build()
}

#[test]
fn command_item_should_get_tags_as_str() {
    let mut command = build_item();
    let tags = command.tags_str();
    assert_eq!(String::from("tag1"), tags)
}

#[test]
fn command_item_should_validate_the_command() {
    let command = build_item();

    assert!(command.validate().is_ok());
}

#[test]
fn command_item_should_return_an_error_when_command_is_not_valid() {
    let mut command = build_item();
    command.alias = String::from("");
    command.command = String::from("");
    command.namespace = String::from("");

    assert!(command.validate().is_err());
    assert_eq!(
        command.validate().unwrap_err(),
        "namespace, command and alias field cannot be empty!"
    );
}

#[test]
fn command_item_should_join_tags_in_their_order() {
    let mut command = build_item();
    command.tags = Some(vec![String::from("b"), String::from("a")]);
    assert_eq!(command.tags_str(), "b, a");
}

#[test]
fn should_format_a_command_with_description_to_string() {
    let command = Command {
        namespace: "namespace".to_owned(),
        command: "command".to_owned(),
        description: Some("description".to_owned()),
        alias: "alias".to_owned(),
        tags: None,
    };
    let expected_output = "namespace.alias: description --> command".to_owned();
    assert_eq!(command.sumarize(), expected_output);
}

#[test]
fn should_format_a_command_without_description_to_string() {
    let command = Command {
        namespace: "namespace".to_owned(),
        command: "command".to_owned(),
        description: None,
        alias: "alias".to_owned(),
        tags: None,
    };
    let expected_output = "namespace.alias --> command".to_owned();
    assert_eq!(command.sumarize(), expected_output);
}

#[test]
fn summary_should_cut_long_and_multiline_commands() {
    let mut command = Command {
        namespace: "ns".to_owned(),
        command: "a".repeat(60),
        description: None,
        alias: "al".to_owned(),
        tags: None,
    };
    assert_eq!(command.sumarize(), format!("ns.al --> {}...", "a".repeat(50)));
    command.command = String::from("first\nsecond");
    assert_eq!(command.sumarize(), "ns.al --> first...");
    command.command = "a".repeat(50);
    assert_eq!(command.sumarize(), format!("ns.al --> {}...", "a".repeat(50)));
    command.command = "a".repeat(49);
    assert_eq!(command.sumarize(), format!("ns.al --> {}", "a".repeat(49)));
}

fn command(alias: &str, namespace: &str) -> Command {
    Command {
        alias: alias.to_owned(),
        namespace: namespace.to_owned(),
        command: "cmd".to_owned(),
        description: None,
        tags: None,
    }
}

#[test]
fn finder_lines_should_mark_repeated_aliases() {
    let commands = vec![command("a", "x"), command("b", "x"), command("a", "y")];
    let lines = finder_lines(&commands);
    assert_eq!(lines[1], "b");
    assert!(lines[0].starts_with("a ("));
    assert!(lines[0].contains('x'));
    assert!(lines[2].contains('y'));
    assert_eq!(summary_lines(&commands)[1], "x.b --> cmd");
}

#[test]
fn misc_should_report_an_unknown_alias() {
    let commands = Commands::init(vec![command("a", "x")]);
    let misc = Misc { description: true, alias: Some(String::from("zz")), namespace: None, fzf: false };
    let result = misc.output(&commands);
    assert_eq!(result.unwrap_err().to_string(), "The alias 'zz' was not found!");
    let misc = Misc { description: false, alias: None, namespace: None, fzf: false };
    assert_eq!(misc.output(&commands).unwrap(), vec![String::from("x.a --> cmd")]);
}

#[test]
fn share_should_import_only_new_keys() {
    let stored = vec![command("a", "x")];
    let file = vec![command("a", "x"), command("b", "x"), command("c", "y")];
    let plan = plan_import(&stored, &file, &Some(vec![String::from("x")]));
    assert_eq!(plan.duplicates.len(), 1);
    assert_eq!(plan.new_commands.len(), 1);
    assert_eq!(plan.new_commands[0].alias, "b");
    assert_eq!(plan.merged.len(), 2);
    assert_eq!(duplicates_report(&plan.duplicates), " - alias: a, namespace: x");
    let all = plan_import(&stored, &file, &None);
    assert_eq!(all.new_commands.len(), 2);
}

#[test]
fn share_should_export_by_namespace() {
    let list = vec![command("a", "x"), command("b", "y"), command("c", "x")];
    let out = export_list(&list, &Some(vec![String::from("y"), String::from("x")]));
    let aliases: Vec<String> = out.iter().map(|c| c.alias.clone()).collect();
    assert_eq!(aliases, vec!["b", "a", "c"]);
    assert_eq!(export_list(&list, &None).len(), 3);
}

#[test]
fn config_should_pick_the_first_option_given() {
    let config = Config {
        default_quiet_mode: None,
        default_log_level: Some(LogLevel::Info),
        highlight_matches: Some(true),
        vi_keybindings: None,
        subcommand: None,
    };
    let action = config.action();
    assert_eq!(action, ConfigAction::SetLogLevel(LogLevel::Info));
    assert_eq!(action.confirmation().unwrap(), "log level set to Info");
    assert_eq!(ConfigAction::SetQuietMode(true).confirmation().unwrap(), "quiet mode set to true");
    assert!(ConfigAction::PrintSettings.confirmation().is_none());
    assert_eq!(LogLevel::Error.as_config_enum(), ConfigLogLevel::Error);
    assert!(check_shell(Some(String::from("/bin/zsh"))).is_ok());
    assert_eq!(
        check_shell(Some(String::from("/bin/bash"))).unwrap_err(),
        "Cannot install zsh widget on non zsh shell! Actual $SHELL value is /bin/bash"
    );
}

#[test]
fn file_config_should_point_to_the_command_file() {
    let config = FileConfig::new("/home/u/.config/cl");
    assert_eq!(config.config_home_path.unwrap(), "/home/u/.config/cl");
    assert_eq!(config.command_file_path.unwrap(), "/home/u/.config/cl/commands.toml");
}
