use cl::command::{Command, CommandBuilder};
use cl::commands::Commands;
use cl::gui::entities::context::{Context, FieldEdit};
use cl::gui::entities::contexts::commands_context::CommandsContext;
use cl::gui::entities::contexts::namespaces_context::{NamespacesContext, DEFAULT_NAMESPACE};
use cl::gui::entities::contexts::Selectable;
use cl::gui::entities::field::{Field, FieldType};
use cl::gui::entities::namespaces_context::NamespacesContext as SteppingNamespaces;
use cl::gui::entities::popup::{Answer, MessageType, PopUp};
use cl::gui::entities::state::State;
use cl::gui::entities::states::ui_state::ViewMode;
use cl::gui::key_handler::{after_save, can_handle, handle, KeyCode, KeyEvent, KeyModifiers, KeyOutcome};

fn namespace_builder(n_of_namespaces: usize) -> Vec<String> {
    let mut namespaces = vec![];
    for i in 0..n_of_namespaces {
        namespaces.push(format!("namespace{}", (i + 1)))
    }
    namespaces
}

#[test]
fn namespaces_context_should_filter_namespaces() {
    let expected = vec![DEFAULT_NAMESPACE.to_string(), "namespace1".to_string()];
    let context = NamespacesContext::new(vec!["namespace1".to_string()]);
    assert_eq!(context.namespaces(), &expected);

    let namespaces = vec![
        "namespace1".to_string(),
        "namespace1".to_string(),
        "namespace1".to_string(),
    ];

    let expected = vec![DEFAULT_NAMESPACE.to_string(), "namespace1".to_string()];

    let context = NamespacesContext::new(namespaces);
    assert_eq!(context.namespaces(), &expected);
}

#[test]
fn namespaces_context_should_go_to_previous_namespace() {
    let mut context = NamespacesContext::new(namespace_builder(2));

    assert_eq!(context.current_namespace(), DEFAULT_NAMESPACE);

    context.previous();
    assert_eq!(context.get_selected_namespace_idx(), 2);
    assert_eq!(context.current_namespace(), "namespace2");

    context.previous();
    assert_eq!(context.get_selected_namespace_idx(), 1);
    assert_eq!(context.current_namespace(), "namespace1");

    context.previous();
    assert_eq!(context.get_selected_namespace_idx(), 0);
    assert_eq!(context.current_namespace(), DEFAULT_NAMESPACE);
}

#[test]
fn namespaces_context_should_go_to_next_namespace() {
    let mut context = NamespacesContext::new(namespace_builder(2));

    assert_eq!(context.current_namespace(), DEFAULT_NAMESPACE);

    context.next();
    assert_eq!(context.get_selected_namespace_idx(), 1);
    assert_eq!(context.current_namespace(), "namespace1");

    context.next();
    assert_eq!(context.get_selected_namespace_idx(), 2);
    assert_eq!(context.get_selected_namespace_idx(), 2);
    assert_eq!(context.current_namespace(), "namespace2");

    context.next();
    assert_eq!(context.get_selected_namespace_idx(), 0);
    assert_eq!(context.current_namespace(), DEFAULT_NAMESPACE);
}

#[test]
fn stepping_namespaces_should_wrap_at_both_ends() {
    let mut context = SteppingNamespaces::new(namespace_builder(2));
    assert_eq!(context.namespaces().len(), 3);
    context.previous_namespace();
    assert_eq!(context.get_selected_namespace_idx(), 2);
    assert_eq!(context.current_namespace(), "namespace2");
    context.next_namespace();
    assert_eq!(context.get_selected_namespace_idx(), 0);
    assert_eq!(context.current_namespace(), "All");
    context.next_namespace();
    assert_eq!(context.current_namespace(), "namespace1");
    context.update_namespaces(vec![]);
    assert_eq!(context.namespaces(), &vec![String::from("All")]);
    context.reset_context();
    assert_eq!(context.current_namespace(), "All");
}

#[test]
fn namespaces_should_sort_and_keep_all_first_when_it_sorts_first() {
    let context = NamespacesContext::new(vec!["b".to_string(), "a".to_string(), "b".to_string()]);
    assert_eq!(context.namespaces(), &vec!["All".to_string(), "a".to_string(), "b".to_string()]);
    let context = NamespacesContext::new(vec!["Zed".to_string(), "Abc".to_string()]);
    assert_eq!(context.namespaces(), &vec!["Abc".to_string(), "All".to_string(), "Zed".to_string()]);
}

fn commands_builder(n_of_commands: usize) -> Vec<Command> {
    let mut commands = vec![];
    for i in 0..n_of_commands {
        commands.push(Command {
            namespace: format!("namespace{}", (i + 1)),
            command: "command".to_string(),
            description: None,
            alias: "alias".to_string(),
            tags: None,
        })
    }
    commands
}

fn state_builder(n_of_commands: usize) -> State {
    State::init(Commands::init(commands_builder(n_of_commands)))
}

#[test]
fn state_should_filter_namespaces() {
    let mut state = state_builder(1);
    state.filter_namespaces();
    let expected = vec!["All".to_string(), "namespace1".to_string()];
    assert_eq!(state.namespaces, expected);
}

#[test]
fn should_load_namespaces() {
    let mut state = state_builder(1);
    state.load_namespaces();
    assert_eq!(state.namespace_state.selected().unwrap(), 0);
    assert_eq!(state.current_namespace, state.commands.namespaces()[0].clone());
    assert_eq!(state.namespaces, state.commands.namespaces());
}

#[test]
fn state_should_go_to_previous_namespace() {
    let mut state = state_builder(2);

    assert_eq!(state.current_namespace, "All");

    state.previous_namespace();
    assert_eq!(state.namespace_state.selected().unwrap(), 2);
    assert_eq!(state.current_namespace, "namespace2");
    assert_eq!(state.commands_state.selected().unwrap(), 0);

    state.previous_namespace();
    assert_eq!(state.namespace_state.selected().unwrap(), 1);
    assert_eq!(state.current_namespace, "namespace1");
    assert_eq!(state.commands_state.selected().unwrap(), 0);

    state.previous_namespace();
    assert_eq!(state.namespace_state.selected().unwrap(), 0);
    assert_eq!(state.current_namespace, "All");
    assert_eq!(state.commands_state.selected().unwrap(), 0);
}

#[test]
fn state_should_go_to_next_namespace() {
    let mut state = state_builder(2);

    assert_eq!(state.current_namespace, "All");

    state.next_namespace();
    assert_eq!(state.namespace_state.selected().unwrap(), 1);
    assert_eq!(state.current_namespace, "namespace1");
    assert_eq!(state.commands_state.selected().unwrap(), 0);

    state.next_namespace();
    assert_eq!(state.namespace_state.selected().unwrap(), 2);
    assert_eq!(state.current_namespace, "namespace2");
    assert_eq!(state.commands_state.selected().unwrap(), 0);

    state.next_namespace();
    assert_eq!(state.namespace_state.selected().unwrap(), 0);
    assert_eq!(state.current_namespace, "All");
    assert_eq!(state.commands_state.selected().unwrap(), 0);
}

#[test]
fn state_should_go_to_next_command() {
    let mut state = state_builder(3);

    assert_eq!(state.commands_state.selected(), Some(0));

    state.next_command();
    assert_eq!(state.commands_state.selected(), Some(1));

    state.next_command();
    assert_eq!(state.commands_state.selected(), Some(2));

    state.next_command();
    assert_eq!(state.commands_state.selected(), Some(0));
}

#[test]
fn state_should_go_to_previous_command() {
    let mut state = state_builder(3);

    assert_eq!(state.commands_state.selected(), Some(0));

    state.previous_command();
    assert_eq!(state.commands_state.selected(), Some(2));

    state.previous_command();
    assert_eq!(state.commands_state.selected(), Some(1));
}

fn commands_context_builder(n_of_commands: usize) -> CommandsContext {
    CommandsContext::new(commands_builder(n_of_commands))
}

#[test]
fn should_go_to_next() {
    let mut context = commands_context_builder(3);
    context.filter_commands(DEFAULT_NAMESPACE, "");

    assert_eq!(context.state().selected(), Some(0));

    context.next();
    assert_eq!(context.state().selected(), Some(1));

    context.next();
    assert_eq!(context.state().selected(), Some(2));

    context.next();
    assert_eq!(context.state().selected(), Some(0));
}

#[test]
fn commands_context_should_go_to_previous_command() {
    let mut context = commands_context_builder(3);
    context.filter_commands(DEFAULT_NAMESPACE, "");

    assert_eq!(context.state().selected(), Some(0));

    context.previous();
    assert_eq!(context.state().selected(), Some(2));

    context.previous();
    assert_eq!(context.state().selected(), Some(1));
}

#[test]
fn commands_context_should_add_a_command() {
    let mut context = commands_context_builder(3);

    let namespace = "new_namespace";
    let mut builder = CommandBuilder::default();
    builder.alias("new_command").namespace(namespace).command("command");
    let new_command = builder.build();

    let result = context.add_command(&new_command);
    assert!(result.is_ok());
    assert_eq!(context.commands_cache().get_entry(namespace).len(), 1);

    let namespace = "invalid_namespace";
    let mut builder = CommandBuilder::default();
    builder.alias("new_command").namespace(namespace);
    let invalid_command = builder.build();

    let result = context.add_command(&invalid_command);
    assert!(result.is_err());
    assert!(!context.commands_cache().contains_namespace(namespace))
}

#[test]
fn commands_context_should_remove_a_command() {
    let mut context = commands_context_builder(0);

    let mut builder = CommandBuilder::default();
    builder.alias("new_command").namespace("namespace").command("command");
    let command = builder.build();

    assert_eq!(context.commands().command_list().len(), 0);
    assert!(context.add_command(&command).is_ok());

    assert_eq!(context.commands().command_list().len(), 1);
    assert!(context.remove_command(&command).is_ok());

    assert_eq!(context.commands().command_list().len(), 0);
}

#[test]
fn commands_context_should_add_an_edited_command() {
    let mut context = commands_context_builder(1);

    let current_command_idx = context.get_selected_command_idx();
    let mut command_list = context.commands().command_list().to_owned();
    let current_command = command_list.get_mut(current_command_idx).unwrap();
    let mut edited_command = current_command.clone();
    edited_command.alias = "Edited_Alias".to_string();

    assert_eq!(context.commands().command_list().len(), 1);
    assert!(context.add_edited_command(&edited_command, current_command).is_ok());
    assert_eq!(context.commands().command_list().len(), 1);
    assert!(context.commands().command_list().contains(&edited_command));
    assert!(!context.commands().command_list().contains(current_command))
}

#[test]
fn should_filter_commands() {
    let mut context = commands_context_builder(4);
    context.filter_commands(DEFAULT_NAMESPACE, "");
    context.next();
    context.next();
    assert_eq!(context.get_selected_command_idx(), 2);

    context.filter_commands(DEFAULT_NAMESPACE, "4");

    assert_eq!(context.filtered_commands().len(), 1);
    let command = &context.filtered_commands()[0];

    assert_eq!(command.namespace, "namespace4");
    assert_eq!(context.get_selected_command_idx(), 0)
}

#[test]
fn should_fuzzy_find_commands() {
    let command1 = Command {
        namespace: "git".to_owned(),
        command: "git log --oneline".to_owned(),
        description: None,
        alias: "gl".to_owned(),
        tags: None,
    };
    let command2 = Command {
        namespace: "git".to_owned(),
        command: "git fetch".to_owned(),
        description: None,
        alias: "gf".to_owned(),
        tags: None,
    };
    let command3 = Command {
        namespace: "cl".to_owned(),
        command: "cl --version".to_owned(),
        description: None,
        alias: "clv".to_owned(),
        tags: None,
    };
    let command4 = Command {
        namespace: "test".to_owned(),
        command: "command".to_owned(),
        description: Some("git mock command".to_owned()),
        alias: "some_string_with_c_and_l".to_owned(),
        tags: None,
    };

    let commands = vec![command1.clone(), command2.clone(), command3.clone(), command4.clone()];

    let mut context = CommandsContext::new(commands);

    context.filter_commands(DEFAULT_NAMESPACE, "git");

    assert_eq!(context.filtered_commands().len(), 3);
    assert!(&context.filtered_commands().contains(&command1));
    assert!(&context.filtered_commands().contains(&command2));
    assert!(&context.filtered_commands().contains(&command4));

    context.filter_commands(DEFAULT_NAMESPACE, "cl");
    assert_eq!(context.filtered_commands().len(), 2);
    assert!(&context.filtered_commands().contains(&command3));
    assert!(&context.filtered_commands().contains(&command4));
}

#[test]
fn field_should_edit_at_the_cursor() {
    let mut field = Field::new(String::from("alias"), String::from(" Alias "), FieldType::Alias, true);
    field.on_char('a');
    field.on_char('c');
    assert_eq!(field.input_text(), "ac");
    assert_eq!(field.cursor_position(), 2);
    field.move_cursor_backward();
    assert!(field.can_type());
    field.on_char('b');
    assert_eq!(field.input_text(), "abc");
    assert_eq!(field.cursor_position(), 2);
    field.on_backspace();
    assert_eq!(field.input_text(), "ac");
    assert_eq!(field.cursor_position(), 1);
    field.move_cursor_backward();
    field.on_delete_key();
    assert_eq!(field.input_text(), "c");
    field.on_backspace();
    assert_eq!(field.input_text(), "c");
    assert_eq!(field.cursor_position(), 0);
    field.toggle_focus();
    assert!(!field.in_focus());
    assert_eq!(field.cursor_position(), 1);
    field.clear_input();
    assert_eq!(field.input_text(), "");
    assert_eq!(field.input_width(), 0);
}

#[test]
fn form_should_build_a_command_from_its_fields() {
    let mut context = Context::new();
    context.focus_state.select(Some(0));
    for c in " my-alias ".chars() {
        context.edit_in_focus(FieldEdit::Type(c));
    }
    context.next();
    for c in "ns".chars() {
        context.edit_in_focus(FieldEdit::Type(c));
    }
    context.next();
    for c in "echo hi".chars() {
        context.edit_in_focus(FieldEdit::Type(c));
    }
    context.next();
    context.next();
    for c in "a,b".chars() {
        context.edit_in_focus(FieldEdit::Type(c));
    }
    let command = context.build_command().unwrap();
    assert_eq!(command.alias, "my-alias");
    assert_eq!(command.namespace, "ns");
    assert_eq!(command.command, "echo hi");
    assert_eq!(command.description, None);
    assert_eq!(command.tags, Some(vec![String::from("a"), String::from("b")]));
    assert!(context.get_current_in_focus().unwrap().input_text().is_empty());
    let mut empty = Context::new();
    assert_eq!(
        empty.build_command().unwrap_err().to_string(),
        "Namespace, command and alias field cannot be empty!"
    );
}

#[test]
fn popup_should_cycle_its_answers() {
    let mut popup = PopUp::init();
    assert_eq!(popup.options, vec![Answer::Okay, Answer::Cancel]);
    popup.next();
    assert_eq!(popup.options_state.selected(), Some(1));
    popup.next();
    assert_eq!(popup.options_state.selected(), Some(0));
    popup.previous();
    assert_eq!(popup.options_state.selected(), Some(1));
    popup.ask_delete();
    assert_eq!(popup.message_type, MessageType::Delete);
    popup.clear();
    assert!(!popup.show_popup);
    assert_eq!(popup.options_state.selected(), Some(0));
}

fn key(code: KeyCode) -> KeyEvent {
    KeyEvent { code, modifiers: KeyModifiers::Plain }
}

#[test]
fn keys_should_insert_a_command() {
    let mut state = state_builder(1);
    assert!(can_handle(&state, key(KeyCode::Char('i'))));
    handle(key(KeyCode::Char('i')), &mut state);
    assert_eq!(state.view_mode, ViewMode::Insert);
    for c in "new".chars() {
        handle(key(KeyCode::Char(c)), &mut state);
    }
    handle(key(KeyCode::Tab), &mut state);
    for c in "ns".chars() {
        handle(key(KeyCode::Char(c)), &mut state);
    }
    handle(key(KeyCode::Tab), &mut state);
    for c in "ls".chars() {
        handle(key(KeyCode::Char(c)), &mut state);
    }
    match handle(key(KeyCode::Enter), &mut state) {
        KeyOutcome::Save { commands, after } => {
            assert_eq!(commands.len(), 2);
            after_save(&mut state, after);
        },
        KeyOutcome::Done => panic!("the command should be saved"),
    }
    assert_eq!(state.view_mode, ViewMode::Main);
    handle(key(KeyCode::Char('q')), &mut state);
    assert!(state.should_quit);
}

#[test]
fn keys_should_show_an_error_for_an_incomplete_command() {
    let mut state = state_builder(1);
    handle(key(KeyCode::Char('i')), &mut state);
    handle(key(KeyCode::Enter), &mut state);
    assert!(state.popup.show_popup);
    assert_eq!(state.popup.message_type, MessageType::Error);
    assert_eq!(state.popup.message, "Namespace, command and alias field cannot be empty!");
    handle(key(KeyCode::Enter), &mut state);
    assert!(!state.popup.show_popup);
}

#[test]
fn keys_should_delete_after_confirmation() {
    let mut state = state_builder(2);
    handle(key(KeyCode::Char('d')), &mut state);
    assert!(state.popup.show_popup);
    assert_eq!(state.popup.message, "Are you sure you want to delete the command?");
    match handle(key(KeyCode::Enter), &mut state) {
        KeyOutcome::Save { commands, after } => {
            assert_eq!(commands.len(), 1);
            after_save(&mut state, after);
        },
        KeyOutcome::Done => panic!("the deletion should be saved"),
    }
    assert!(!state.popup.show_popup);
    assert_eq!(state.commands.command_list().len(), 1);
}

#[test]
fn keys_should_select_the_command_to_run() {
    let mut state = state_builder(3);
    handle(key(KeyCode::Down), &mut state);
    handle(key(KeyCode::Enter), &mut state);
    assert!(state.should_quit);
    assert_eq!(state.to_be_executed.unwrap().namespace, "namespace2");
}
