use cl::command::Command;
use cl::gui::entities::context::FieldEdit;
use cl::gui::entities::contexts::field_context::{parse_tags, FieldContext};
use cl::gui::entities::contexts::Selectable;
use cl::gui::entities::field::FieldType;
use cl::gui::entities::terminal::TerminalSize;
use cl::gui::entities::states::ui_state::ViewMode;
use cl::gui::entities::ui_context::{InputTarget, UIContext};

fn place(ft: FieldType) -> usize {
    match ft {
        FieldType::Alias => 0,
        FieldType::Namespace => 1,
        FieldType::Command => 2,
        FieldType::Description => 3,
        FieldType::Tags => 4,
        FieldType::QueryBox => 5,
    }
}

fn in_focus(context: &FieldContext, ft: FieldType) -> bool {
    context.get_fields()[place(ft)].in_focus()
}

fn type_in(context: &mut FieldContext, ft: FieldType, text: &str) {
    context.select_field(Some(ft));
    for c in text.chars() {
        context.handle_input(FieldEdit::Type(c));
    }
}

#[test]
fn should_move_to_next_field() {
    let mut field_context = FieldContext::new();
    field_context.select_field(Some(FieldType::Alias));

    field_context.next();
    assert_eq!(field_context.get_field_state().selected(), Some(FieldType::Namespace));
    assert_eq!(in_focus(&field_context, FieldType::Alias), false);
    assert_eq!(in_focus(&field_context, FieldType::Namespace), true);

    field_context.next();
    assert_eq!(field_context.get_field_state().selected(), Some(FieldType::Command));
    assert_eq!(in_focus(&field_context, FieldType::Namespace), false);
    assert_eq!(in_focus(&field_context, FieldType::Command), true);
}

#[test]
fn should_move_to_previous_field() {
    let mut field_context = FieldContext::new();
    field_context.select_field(Some(FieldType::Alias));

    field_context.previous();
    assert_eq!(field_context.get_field_state().selected(), Some(FieldType::Tags));
    assert_eq!(in_focus(&field_context, FieldType::Alias), false);
    assert_eq!(in_focus(&field_context, FieldType::Tags), true);

    field_context.previous();
    assert_eq!(field_context.get_field_state().selected(), Some(FieldType::Description));
    assert_eq!(in_focus(&field_context, FieldType::Tags), false);
    assert_eq!(in_focus(&field_context, FieldType::Description), true);
}

#[test]
fn should_return_the_selected_field() {
    let mut field_context = FieldContext::new();

    field_context.select_field(Some(FieldType::Namespace));
    let selected_field = field_context.selected_field();
    assert_eq!(*selected_field.unwrap().field_type(), FieldType::Namespace);
}

#[test]
fn should_build_a_new_command() {
    let mut field_context = FieldContext::new();
    type_in(&mut field_context, FieldType::Alias, "alias");
    type_in(&mut field_context, FieldType::Namespace, "n");
    type_in(&mut field_context, FieldType::Command, "c");
    type_in(&mut field_context, FieldType::Description, "d\nd");
    type_in(&mut field_context, FieldType::Tags, "t");
    let command = field_context.build_new_command();

    assert!(command.validate().is_ok());
    assert_eq!(command.alias, "alias");
    assert_eq!(command.command, "c");
    assert_eq!(command.namespace, "n");
    assert_eq!(command.description, Some("d\nd".to_string()));
    assert_eq!(command.tags, Some(vec!["t".to_string(),]));
}

#[test]
fn should_set_input_based_at_selected_command() {
    let mut field_context = FieldContext::new();
    let selected_command = Command {
        alias: String::from("alias"),
        command: String::from("command"),
        namespace: String::from("namespace"),
        description: None,
        tags: Some(vec![String::from("tag1"), String::from("tag2")]),
    };
    field_context.select_command(Some(selected_command));
    field_context.popuplate_form();

    let command = field_context.selected_command();

    assert!(command.is_some());
    let command = command.unwrap();

    assert_eq!(command.alias, "alias");
    assert_eq!(command.command, "command");
    assert_eq!(command.namespace, "namespace");
    assert_eq!(command.description, None);
    assert_eq!(command.tags, Some(vec![String::from("tag1"), String::from("tag2")]));
}

#[test]
fn should_clear_input_when_enter_insert_screen() {
    let mut ui = UIContext::new();
    let command = Command::default();

    // enters edit mode
    ui.select_command(Some(command));
    ui.reset_form_field_selected_field();
    ui.order_fields();
    ui.clear_form_fields();
    ui.set_selected_command_input();

    let alias_form = ui.get_selected_form_field();

    assert!(alias_form.is_some());
    assert!(!alias_form.unwrap().input_text().is_empty());

    // enters insert mode
    ui.reset_form_field_selected_field();
    ui.order_fields();
    ui.clear_form_fields();

    let alias_form = ui.get_selected_form_field();

    assert!(alias_form.is_some());
    assert!(alias_form.unwrap().input_text().is_empty());
}

#[test]
fn should_fill_each_field_with_the_command_text() {
    let mut field_context = FieldContext::new();
    field_context.select_command(Some(Command {
        alias: String::from("alias"),
        command: String::from("ls -la"),
        namespace: String::from("ns"),
        description: None,
        tags: Some(vec![String::from("tag1"), String::from("tag2")]),
    }));
    field_context.popuplate_form();

    assert_eq!(field_context.text(FieldType::Alias), "alias");
    assert_eq!(field_context.text(FieldType::Command), "ls -la");
    assert_eq!(field_context.text(FieldType::Namespace), "ns");
    assert_eq!(field_context.text(FieldType::Description), "");
    assert_eq!(field_context.text(FieldType::Tags), "tag1, tag2");
    assert_eq!(field_context.get_fields()[place(FieldType::Tags)].cursor_position(), 10);
    assert!(!field_context.is_modified());
}

#[test]
fn should_mark_the_form_modified_after_typing() {
    let mut field_context = FieldContext::new();
    field_context.clear_inputs();
    assert!(!field_context.is_modified());
    type_in(&mut field_context, FieldType::Alias, "x");
    assert!(field_context.is_modified());
    field_context.handle_input(FieldEdit::Backspace);
    assert!(!field_context.is_modified());
}

#[test]
fn should_build_the_edited_command_from_the_fields() {
    let mut field_context = FieldContext::new();
    field_context.select_command(Some(Command {
        alias: String::from("old"),
        command: String::from("ls"),
        namespace: String::from("ns"),
        description: Some(String::from("desc")),
        tags: None,
    }));
    field_context.popuplate_form();
    type_in(&mut field_context, FieldType::Alias, "er");
    type_in(&mut field_context, FieldType::Tags, " a, ,b ");
    let command = field_context.build_edited_command();

    assert_eq!(command.alias, "older");
    assert_eq!(command.command, "ls");
    assert_eq!(command.namespace, "ns");
    assert_eq!(command.description, Some(String::from("desc")));
    assert_eq!(command.tags, Some(vec![String::from("a"), String::from("b")]));
}

#[test]
fn should_trim_alias_and_namespace_of_a_new_command() {
    let mut field_context = FieldContext::new();
    type_in(&mut field_context, FieldType::Alias, "  a  ");
    type_in(&mut field_context, FieldType::Namespace, " ns ");
    type_in(&mut field_context, FieldType::Command, "cmd");
    let command = field_context.build_new_command();

    assert_eq!(command.alias, "a");
    assert_eq!(command.namespace, "ns");
    assert_eq!(command.description, None);
    assert_eq!(command.tags, Some(vec![]));
}

#[test]
fn should_order_the_fields_by_terminal_size() {
    let mut field_context = FieldContext::new();
    field_context.order_field_by_size(TerminalSize::Small);
    field_context.select_field(Some(FieldType::Namespace));
    field_context.next();
    assert_eq!(field_context.get_field_state().selected(), Some(FieldType::Description));
    field_context.previous();
    field_context.previous();
    field_context.previous();
    assert_eq!(field_context.get_field_state().selected(), Some(FieldType::Command));
}

#[test]
fn should_parse_tags() {
    assert_eq!(parse_tags(" a , b,, c "), vec!["a".to_string(), "b".to_string(), "c".to_string()]);
    assert_eq!(parse_tags(""), Vec::<String>::new());
}

#[test]
fn should_reset_the_form_selection_to_the_alias_field() {
    let mut ui = UIContext::new();
    ui.select_form_field_type(Some(FieldType::Tags));
    ui.next_form_field();
    ui.reset_form_field_selected_field();
    let fields = ui.get_form_fields();
    assert!(fields[place(FieldType::Alias)].in_focus());
    assert!(!fields[place(FieldType::Tags)].in_focus());
    assert_eq!(*ui.get_selected_form_field().unwrap().field_type(), FieldType::Alias);
}

#[test]
fn should_give_back_the_input_after_typing_and_backspace() {
    let mut field = cl::gui::entities::field::Field::new(
        String::from("alias"),
        String::from(" Alias "),
        FieldType::Alias,
        true,
    );
    field.set_input(String::from("ab"));
    field.reset_cursor_position();
    field.on_char('c');
    assert_eq!(field.input_text(), "abc");
    assert_eq!(field.cursor_position(), 3);
    field.on_backspace();
    assert_eq!(field.input_text(), "ab");
    assert_eq!(field.cursor_position(), 2);
}

#[test]
fn should_send_keys_to_the_popup_first() {
    let mut ui = UIContext::new();
    assert_eq!(ui.input_target(), InputTarget::Screen(ViewMode::Main));
    ui.set_querybox_focus(true);
    assert_eq!(ui.input_target(), InputTarget::QueryBox);
    ui.set_show_help(true);
    assert_eq!(ui.input_target(), InputTarget::Help);
    ui.set_show_popup(true);
    assert_eq!(ui.input_target(), InputTarget::Popup);
}

#[test]
fn should_come_back_to_the_same_answer() {
    let mut ui = UIContext::new();
    ui.set_dialog_popup(String::from("sure?"), cl::gui::entities::events::app_events::PopupCallbackAction::NoAction);
    let before = ui.get_selected_choice();
    ui.next_choice();
    assert_ne!(ui.get_selected_choice(), before);
    ui.previous_choice();
    assert_eq!(ui.get_selected_choice(), before);
}

#[test]
fn should_change_the_selected_answer_in_place() {
    let mut ui = UIContext::new();
    ui.set_dialog_popup(String::from("sure?"), cl::gui::entities::events::app_events::PopupCallbackAction::NoAction);
    ui.get_choices_state_mut().select(Some(1));
    assert_eq!(ui.get_selected_choice(), Some(cl::gui::widgets::popup::Answer::Cancel));
}

#[test]
fn should_change_an_item_through_its_reference() {
    let mut item = cl::gui::contexts::context::Item::new(String::from("alias"), false);
    item.get_mut_ref().push('x');
    assert_eq!(item.input, "x");
}
