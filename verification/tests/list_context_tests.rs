use cl::command::Command;
use cl::gui::entities::commands_context::CommandsContext;

fn commands_builder(n_of_commands: usize) -> Vec<Command> {
    let mut commands = vec![];
    for i in 0..n_of_commands {
        commands.push(Command {
            namespace: format!("namespace{}", (i + 1)),
            command: "command".to_string(),
            description: None,
            alias: "alias".to_string(),
            tags: None,
        })
    }

    commands
}

fn commands_context_builder(n_of_commands: usize) -> CommandsContext {
    let commands = commands_builder(n_of_commands);
    CommandsContext::new(commands)
}

#[test]
fn commands_context_should_go_to_next_command() {
    let mut context = commands_context_builder(3);
    let current_namespace = "All";
    let query_string = "";

    assert_eq!(context.state().selected(), Some(0));

    context.next_command(current_namespace, query_string);
    assert_eq!(context.state().selected(), Some(1));

    context.next_command(current_namespace, query_string);
    assert_eq!(context.state().selected(), Some(2));

    context.next_command(current_namespace, query_string);
    assert_eq!(context.state().selected(), Some(0));
}

#[test]
fn list_context_should_go_to_previous_command() {
    let mut context = commands_context_builder(3);
    let current_namespace = "All";
    let query_string = "";

    assert_eq!(context.state().selected(), Some(0));

    context.previous_command(current_namespace, query_string);
    assert_eq!(context.state().selected(), Some(2));

    context.previous_command(current_namespace, query_string);
    assert_eq!(context.state().selected(), Some(1));
}

#[test]
fn list_context_should_stay_when_nothing_is_listed() {
    let mut context = commands_context_builder(3);
    context.select_command(5);
    context.next_command("namespace1", "zzzz-no-match");
    assert_eq!(context.state().selected(), Some(0));
    context.select_command(5);
    context.previous_command("namespace1", "");
    assert_eq!(context.state().selected(), Some(4));
}

#[test]
fn list_context_should_list_a_namespace_and_search_only_longer_lists() {
    let mut commands = commands_builder(2);
    commands.push(Command {
        namespace: "namespace1".to_string(),
        command: "git status".to_string(),
        description: None,
        alias: "gs".to_string(),
        tags: None,
    });
    let context = CommandsContext::new(commands);
    let listed = context.filter_commands("namespace2", "zzzz");
    assert_eq!(listed.len(), 1);
    let listed = context.filter_commands("namespace1", "");
    assert_eq!(listed.len(), 2);
    let listed = context.filter_commands("namespace1", "gs");
    assert_eq!(listed.iter().map(|c| c.alias.clone()).collect::<Vec<_>>(), vec!["gs"]);
    assert_eq!(context.filter_commands("All", "").len(), 3);
}

#[test]
fn list_context_should_refuse_invalid_and_stored_commands() {
    let mut context = commands_context_builder(2);
    let invalid = Command {
        namespace: "ns".to_string(),
        command: "".to_string(),
        description: None,
        alias: "x".to_string(),
        tags: None,
    };
    assert_eq!(
        context.add_command(&invalid).unwrap_err(),
        "Namespace, command and alias field cannot be empty!"
    );
    let stored = commands_builder(1).remove(0);
    assert_eq!(context.add_command(&stored).unwrap_err(), "Cannot save the new command");
    let fresh = Command {
        namespace: "namespace1".to_string(),
        command: "ls".to_string(),
        description: None,
        alias: "new".to_string(),
        tags: None,
    };
    assert_eq!(context.add_command(&fresh).unwrap().len(), 3);
    assert_eq!(context.filter_commands("namespace1", "").len(), 2);
    let written = context.remove_command(&fresh).unwrap();
    assert_eq!(written.len(), 2);
    assert_eq!(context.filter_commands("namespace1", "").len(), 1);
}

#[test]
fn list_context_should_keep_the_command_to_run() {
    let mut context = commands_context_builder(1);
    assert!(context.command_to_be_executed().is_none());
    context.set_command_to_be_executed(Some(commands_builder(1).remove(0)));
    assert_eq!(context.command_to_be_executed().unwrap().alias, "alias");
}
