use cl::command::{Command, CommandBuilder};
use cl::commands::Commands;
use cl::gui::entities::contexts::commands_context::CacheInfo;

fn command_factory(
    alias: &str,
    namespace: &str,
    command: &str,
    tags: Option<Vec<&str>>,
    description: Option<&str>,
) -> Command {
    let mut builder = CommandBuilder::default();
    builder
        .alias(alias)
        .namespace(namespace)
        .command(command)
        .description(description)
        .tags(tags.map(|v| v.into_iter().map(String::from).collect::<Vec<String>>()));
    builder.build()
}

fn build_commands() -> Commands {
    let command1 = command_factory(
        "alias1",
        "namespace1",
        "command1",
        Some(vec!["tag1", "tag2"]),
        Some("description"),
    );

    let command2 = command_factory(
        "alias2",
        "namespace2",
        "command2",
        Some(vec!["tag1", "tag2"]),
        Some("description"),
    );

    Commands::init(vec![command1, command2])
}

#[test]
fn should_return_all_namespaces() {
    let commands = build_commands();
    let namespaces = commands.namespaces();
    assert_eq!(
        vec![
            String::from("All"),
            String::from("namespace1"),
            String::from("namespace2")
        ],
        namespaces
    )
}

#[test]
fn should_return_all_commands() {
    let commands = build_commands();
    let all_command_items = commands.filter_commands("All", "");
    assert_eq!(2, all_command_items.unwrap().len())
}

#[test]
fn should_return_welcome_command_when_there_is_no_saved_command() {
    let commands = Commands::init(Vec::default());
    let all_command_items = commands.filter_commands("All", "").unwrap();
    let default_command_item = Command::default();
    assert_eq!(all_command_items.len(), 1);
    assert_eq!(default_command_item, all_command_items.get(0).unwrap().to_owned());
}

#[test]
fn should_validate_if_command_already_exists() {
    let commands = build_commands();
    let mut duplicated_command = CommandBuilder::default();
    duplicated_command
        .alias(String::from("alias1"))
        .namespace(String::from("namespace1"))
        .command(String::from("command"));

    let already_exists = commands.command_already_exists(&duplicated_command.build());
    assert!(already_exists)
}

#[test]
fn should_return_all_commands_from_namespace() {
    let commands = build_commands();
    let commands_from_namespace = commands.filter_commands("namespace2", "");

    if let Ok(items) = commands_from_namespace {
        assert_eq!(1, items.len())
    }
}

#[test]
fn should_return_an_error_when_there_are_no_commands_from_namespace() {
    let commands = build_commands();
    let invalid_namespace = "invalid";
    let commands_from_namespace = commands.filter_commands(invalid_namespace, "");

    if let Err(error) = commands_from_namespace {
        assert_eq!(
            format!("There are no commands to show for namespace \"{}\"", invalid_namespace),
            error.to_string()
        )
    }
}

#[test]
fn commands_should_remove_a_command() {
    let mut commands = build_commands();
    let all_commands = commands.filter_commands("All", "").unwrap();

    assert_eq!(2, all_commands.len());

    let to_be_removed = all_commands.get(0).unwrap();
    let command_list_after_remove_command = commands.remove(to_be_removed);

    if let Ok(items) = command_list_after_remove_command {
        assert_eq!(1, items.len());
        assert!(!items.contains(to_be_removed))
    }
}

#[test]
fn commands_should_add_a_command() {
    let mut commands = build_commands();
    let all_commands = commands.filter_commands("All", "").unwrap();

    assert_eq!(2, all_commands.len());

    let new_command = Command::default();
    let new_command_list = commands.add_command(&new_command);

    if let Ok(items) = new_command_list {
        assert_eq!(3, items.len());
        assert!(items.contains(&new_command))
    }
}

#[test]
fn commands_should_add_an_edited_command() {
    let mut commands = build_commands();
    let new_command = command_factory(
        "alias2",
        "namespace1",
        "command2",
        Some(vec!["tag1", "tag2"]),
        Some("description"),
    );

    if let Ok(items) = commands.add_command(&new_command) {
        assert_eq!(3, items.len())
    }

    let mut edited_command = new_command.clone();
    edited_command.alias = String::from("edited_alias");

    let command_list_with_edited_command = commands.add_edited_command(&edited_command, &new_command);

    if let Ok(items) = command_list_with_edited_command {
        assert_eq!(3, items.len());
        assert!(items.contains(&edited_command));
        assert!(!items.contains(&new_command));
    }
}

#[test]
fn should_return_an_error_when_edit_a_duplicated_alias_command() {
    let mut commands = build_commands();
    let current_command = Command::default();

    commands.add_command(&current_command).unwrap();

    assert_eq!(3, commands.filter_commands("All", "").unwrap().len());

    let mut edited_command = current_command.clone();
    edited_command.description = Some(String::from("edited command"));
    edited_command.namespace = String::from("namespace1");

    let command_list_with_edited_command = commands.add_edited_command(&edited_command, &current_command);

    if let Err(error) = command_list_with_edited_command {
        assert_eq!(
            format!(
                "Command with alias \"{}\" already exists in \"{}\" namespace",
                edited_command.alias, edited_command.namespace
            ),
            error.to_string()
        )
    }
}

#[test]
fn commands_should_order_by_alias_ignoring_case() {
    let commands = Commands::init(vec![
        command_factory("b", "n", "c", None, None),
        command_factory("A", "n", "c", None, None),
        command_factory("a", "m", "c", None, None),
    ]);
    let aliases: Vec<String> = commands.command_list().iter().map(|c| c.alias.clone()).collect();
    assert_eq!(aliases, vec!["A", "a", "b"]);
}

#[test]
fn commands_should_find_a_command_by_alias() {
    let commands = build_commands();
    let found = commands.find_command(String::from("alias2"), None).unwrap();
    assert_eq!(found.namespace, "namespace2");
    let missing = commands.find_command(String::from("nope"), None);
    assert_eq!(missing.unwrap_err().to_string(), "The alias 'nope' was not found!");
    let mut twice = build_commands();
    twice
        .add_command(&command_factory("alias1", "namespace2", "c", None, None))
        .unwrap();
    assert_eq!(
        twice.find_command(String::from("alias1"), None).unwrap_err().to_string(),
        "There are commands with the alias 'alias1' in multiples namespaces. Please use the '--namespace' flag"
    );
    assert!(twice.find_command(String::from("alias1"), Some(String::from("namespace2"))).is_ok());
}

#[test]
fn should_only_print_the_command_in_a_dry_run() {
    let commands = Commands::init(vec![]);
    let command = command_factory("a", "ns", "ls -la", None, None);
    match commands.exec_command(&command, true, false, false) {
        cl::commands::ExecPlan::Print(text) => assert_eq!(text, "ls -la"),
        _ => panic!("expected a print"),
    }
}

#[test]
fn should_announce_the_command_unless_quiet() {
    let commands = Commands::init(vec![]);
    let command = command_factory("a", "ns", "ls -la", None, None);
    match commands.exec_command(&command, false, false, false) {
        cl::commands::ExecPlan::Run { announce, command } => {
            assert_eq!(announce, Some("ns.a --> ls -la".to_string()));
            assert_eq!(command, "ls -la");
        },
        _ => panic!("expected a run"),
    }
    match commands.exec_command(&command, false, true, false) {
        cl::commands::ExecPlan::Run { announce, .. } => assert_eq!(announce, None),
        _ => panic!("expected a run"),
    }
    match commands.exec_command(&command, false, false, true) {
        cl::commands::ExecPlan::Run { announce, .. } => assert_eq!(announce, None),
        _ => panic!("expected a run"),
    }
}

#[test]
fn should_cut_a_long_command_in_the_announce_line() {
    let commands = Commands::init(vec![]);
    let long = "x".repeat(130);
    let command = command_factory("a", "ns", &long, None, None);
    match commands.exec_command(&command, false, false, false) {
        cl::commands::ExecPlan::Run { announce, command } => {
            assert_eq!(announce, Some(format!("ns.a --> {}...", "x".repeat(120))));
            assert_eq!(command, long);
        },
        _ => panic!("expected a run"),
    }
}

#[test]
fn should_measure_and_cut_by_bytes() {
    assert!(cl::text::longer_than("héllo", 5));
    assert!(!cl::text::longer_than("hello", 5));
    assert_eq!(cl::text::byte_prefix("héllo", 3), "hé");
    assert_eq!(cl::text::byte_prefix("héllo", 0), "");
}

#[test]
fn should_group_commands_by_namespace_in_order() {
    let list = vec![
        command_factory("b", "ns1", "x", None, None),
        command_factory("a", "ns2", "y", None, None),
        command_factory("c", "ns1", "z", None, None),
    ];
    let cache = CacheInfo::group(list);
    let entries = cache.entries();
    assert_eq!(entries.len(), 2);
    assert_eq!(entries[0].0, "ns1");
    assert_eq!(entries[0].1.iter().map(|c| c.alias.clone()).collect::<Vec<_>>(), vec!["b", "c"]);
    assert_eq!(entries[1].0, "ns2");
}

#[test]
fn should_cache_an_added_command_in_its_namespace() {
    let mut cache = CacheInfo::new(vec![command_factory("b", "ns1", "x", None, None)]);
    cache.insert_entry(command_factory("a", "ns1", "y", None, None));
    let entry = cache.get_entry("ns1");
    assert_eq!(entry.iter().map(|c| c.alias.clone()).collect::<Vec<_>>(), vec!["a", "b"]);
    cache.insert_entry(command_factory("z", "ns9", "y", None, None));
    assert!(cache.contains_namespace("ns9"));
    assert_eq!(cache.get_entry("ns1").len(), 2);
}
