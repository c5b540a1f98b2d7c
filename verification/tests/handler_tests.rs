use cl::command::Command;
use cl::gui::entities::context::FieldEdit;
use cl::gui::entities::contexts::application_context::{ApplicationContext, Options};
use cl::gui::entities::event_handler::{Effect, EventHandler, Pending};
use cl::gui::entities::events::app_events::{
    AppEvents, CommandEvents, FormScreenEvent, MainScreenEvent, PopupCallbackAction, PopupEvent,
    PopupType, QueryboxEvent, RenderEvents, ScreenEvents,
};
use cl::gui::entities::field::FieldType;
use cl::gui::entities::states::ui_state::ViewMode;
use cl::gui::entities::ui_context::UIContext;
use cl::gui::widgets::popup::{Answer, MessageType};

fn command(alias: &str, namespace: &str) -> Command {
    Command {
        alias: alias.to_string(),
        namespace: namespace.to_string(),
        command: format!("echo {alias}"),
        description: None,
        tags: None,
    }
}

fn handler() -> EventHandler {
    let commands = vec![command("b", "ns1"), command("a", "ns2"), command("c", "ns1")];
    let mut app = ApplicationContext::init(commands, Options { highlight: true, quiet_mode: false });
    app.reload_contexts();
    EventHandler::init(app, UIContext::new())
}

fn type_text(h: &mut EventHandler, text: &str) {
    for c in text.chars() {
        h.handle(AppEvents::Screen(ScreenEvents::Form(FormScreenEvent::Input(FieldEdit::Type(c)))));
    }
}

#[test]
fn should_reload_every_command_and_namespace() {
    let h = handler();
    let shown = h.app_context.commands_context.filtered_commands();
    let aliases: Vec<String> = shown.iter().map(|c| c.alias.clone()).collect();
    assert_eq!(aliases, vec!["a", "b", "c"]);
    assert_eq!(
        h.app_context.namespaces_context.namespaces(),
        &vec!["All".to_string(), "ns1".to_string(), "ns2".to_string()]
    );
    assert_eq!(h.app_context.get_selected_command_idx(), 0);
    assert!(h.app_context.should_highligh());
}

#[test]
fn should_quit_and_keep_the_command_to_run() {
    let mut h = handler();
    h.ui_context.select_command(Some(command("a", "ns2")));
    let effect = h.handle(AppEvents::Run(CommandEvents::Execute));
    assert!(matches!(effect, Effect::Quit));
    assert!(h.should_quit);
    assert_eq!(h.app_context.callback_command().unwrap().alias, "a");
}

#[test]
fn should_quit() {
    let mut h = handler();
    let effect = h.handle(AppEvents::Quit);
    assert!(matches!(effect, Effect::Quit));
    assert!(h.should_quit);
    assert!(h.app_context.callback_command().is_none());
}

#[test]
fn should_ask_to_copy_the_selected_command() {
    let mut h = handler();
    assert!(matches!(h.handle(AppEvents::Run(CommandEvents::Copy)), Effect::Done));
    h.ui_context.select_command(Some(command("b", "ns1")));
    match h.handle(AppEvents::Run(CommandEvents::Copy)) {
        Effect::Copy(text) => assert_eq!(text, "echo b"),
        _ => panic!("expected a copy"),
    }
    h.finish_copy(Err("no clipboard".to_string()));
    assert!(h.ui_context.show_popup());
    assert_eq!(h.ui_context.popup().unwrap().message(), "no clipboard");
}

#[test]
fn should_insert_a_new_command_and_go_back_to_main() {
    let mut h = handler();
    h.handle(AppEvents::Render(RenderEvents::Insert));
    assert_eq!(h.ui_context.view_mode(), ViewMode::Insert);
    type_text(&mut h, "d");
    h.handle(AppEvents::Screen(ScreenEvents::Form(FormScreenEvent::NextField)));
    type_text(&mut h, "ns3");
    h.handle(AppEvents::Screen(ScreenEvents::Form(FormScreenEvent::NextField)));
    type_text(&mut h, "ls");
    let effect = h.handle(AppEvents::Run(CommandEvents::Insert));
    match effect {
        Effect::Save { commands, then } => {
            assert_eq!(then, Pending::Inserted);
            assert_eq!(commands.len(), 4);
            assert_eq!(commands[3].alias, "d");
            assert_eq!(commands[3].namespace, "ns3");
            assert_eq!(commands[3].command, "ls");
            h.finish_save(then, Ok(()));
        },
        _ => panic!("expected a save"),
    }
    assert_eq!(h.ui_context.view_mode(), ViewMode::Main);
    assert_eq!(h.app_context.commands_context.filtered_commands().len(), 4);
    assert_eq!(h.app_context.namespaces_context.namespaces().len(), 4);
}

#[test]
fn should_show_an_error_when_the_new_command_is_invalid() {
    let mut h = handler();
    h.handle(AppEvents::Render(RenderEvents::Insert));
    let effect = h.handle(AppEvents::Run(CommandEvents::Insert));
    assert!(matches!(effect, Effect::Done));
    assert!(h.ui_context.show_popup());
    let popup = h.ui_context.popup().unwrap();
    assert_eq!(popup.message_type(), MessageType::Error);
    assert_eq!(popup.message(), "Namespace, command and alias field cannot be empty!");
    assert_eq!(h.ui_context.view_mode(), ViewMode::Insert);
}

#[test]
fn should_refuse_a_command_that_already_exists() {
    let mut h = handler();
    h.handle(AppEvents::Render(RenderEvents::Insert));
    type_text(&mut h, "a");
    h.handle(AppEvents::Screen(ScreenEvents::Form(FormScreenEvent::NextField)));
    type_text(&mut h, "ns2");
    h.handle(AppEvents::Screen(ScreenEvents::Form(FormScreenEvent::NextField)));
    type_text(&mut h, "ls");
    assert!(matches!(h.handle(AppEvents::Run(CommandEvents::Insert)), Effect::Done));
    assert_eq!(
        h.ui_context.popup().unwrap().message(),
        "Command with alias \"a\" already exists in \"ns2\" namespace"
    );
}

#[test]
fn should_show_the_write_error_after_a_failed_save() {
    let mut h = handler();
    h.handle(AppEvents::Render(RenderEvents::Insert));
    type_text(&mut h, "d");
    h.handle(AppEvents::Screen(ScreenEvents::Form(FormScreenEvent::NextField)));
    type_text(&mut h, "ns");
    h.handle(AppEvents::Screen(ScreenEvents::Form(FormScreenEvent::NextField)));
    type_text(&mut h, "ls");
    if let Effect::Save { then, .. } = h.handle(AppEvents::Run(CommandEvents::Insert)) {
        h.finish_save(then, Err("disk full".to_string()));
    } else {
        panic!("expected a save");
    }
    assert!(h.ui_context.show_popup());
    assert_eq!(h.ui_context.popup().unwrap().message(), "disk full");
    assert_eq!(h.ui_context.view_mode(), ViewMode::Insert);
}

#[test]
fn should_edit_the_selected_command() {
    let mut h = handler();
    h.ui_context.select_command(Some(command("b", "ns1")));
    h.handle(AppEvents::Render(RenderEvents::Edit));
    assert_eq!(h.ui_context.view_mode(), ViewMode::Edit);
    type_text(&mut h, "x");
    match h.handle(AppEvents::Run(CommandEvents::Edit)) {
        Effect::Save { commands, then } => {
            assert_eq!(then, Pending::Edited);
            assert_eq!(commands.len(), 3);
            assert_eq!(commands[2].alias, "bx");
            h.finish_save(then, Ok(()));
        },
        _ => panic!("expected a save"),
    }
    assert_eq!(h.ui_context.view_mode(), ViewMode::Main);
}

#[test]
fn should_ask_before_leaving_a_changed_form() {
    let mut h = handler();
    h.handle(AppEvents::Render(RenderEvents::Insert));
    type_text(&mut h, "z");
    h.handle(AppEvents::Render(RenderEvents::Main));
    assert!(h.ui_context.show_popup());
    assert_eq!(h.ui_context.view_mode(), ViewMode::Insert);
    let popup = h.ui_context.popup().unwrap();
    assert_eq!(popup.message_type(), MessageType::Warning);
    assert_eq!(popup.callback(), PopupCallbackAction::Render(RenderEvents::Main));

    h.handle(AppEvents::Popup(PopupEvent::Answer));
    assert!(!h.ui_context.show_popup());
    assert!(h.ui_context.popup().is_none());
    assert_eq!(h.ui_context.view_mode(), ViewMode::Main);
}

#[test]
fn should_cancel_a_dialog() {
    let mut h = handler();
    h.handle(AppEvents::Popup(PopupEvent::Enable(PopupType::Dialog {
        message: "sure?".to_string(),
        callback_action: PopupCallbackAction::DeleteCommand,
    })));
    assert!(h.ui_context.show_popup());
    h.handle(AppEvents::Popup(PopupEvent::NextChoice));
    assert_eq!(h.ui_context.get_selected_choice(), Some(Answer::Cancel));
    h.handle(AppEvents::Popup(PopupEvent::Answer));
    assert!(!h.ui_context.show_popup());
    assert!(h.ui_context.popup().is_none());
    assert_eq!(h.app_context.commands_context.filtered_commands().len(), 3);
}

#[test]
fn should_delete_the_selected_command_once_confirmed() {
    let mut h = handler();
    h.ui_context.select_command(Some(command("c", "ns1")));
    h.handle(AppEvents::Popup(PopupEvent::Enable(PopupType::Dialog {
        message: "sure?".to_string(),
        callback_action: PopupCallbackAction::DeleteCommand,
    })));
    match h.handle(AppEvents::Popup(PopupEvent::Answer)) {
        Effect::Save { commands, then } => {
            assert_eq!(then, Pending::Deleted);
            assert_eq!(commands.len(), 2);
            assert!(commands.iter().all(|c| c.alias != "c"));
            h.finish_save(then, Ok(()));
        },
        _ => panic!("expected a save"),
    }
    assert!(!h.ui_context.show_popup());
    assert!(h.ui_context.popup().is_none());
    assert_eq!(h.app_context.commands_context.filtered_commands().len(), 2);
}

#[test]
fn should_toggle_help_and_close_popups() {
    let mut h = handler();
    h.handle(AppEvents::Popup(PopupEvent::Enable(PopupType::Help)));
    assert!(h.ui_context.show_help());
    h.handle(AppEvents::Popup(PopupEvent::Disable));
    assert!(!h.ui_context.show_help());
    h.handle(AppEvents::Popup(PopupEvent::Enable(PopupType::Dialog {
        message: "m".to_string(),
        callback_action: PopupCallbackAction::NoAction,
    })));
    h.handle(AppEvents::Popup(PopupEvent::Disable));
    assert!(!h.ui_context.show_popup());
    assert!(h.ui_context.popup().is_none());
}

#[test]
fn should_move_through_commands_and_namespaces() {
    let mut h = handler();
    h.handle(AppEvents::Screen(ScreenEvents::Main(MainScreenEvent::PreviousCommand)));
    assert_eq!(h.app_context.get_selected_command_idx(), 2);
    h.handle(AppEvents::Screen(ScreenEvents::Main(MainScreenEvent::NextCommand)));
    assert_eq!(h.app_context.get_selected_command_idx(), 0);
    h.handle(AppEvents::Screen(ScreenEvents::Main(MainScreenEvent::NextCommand)));
    assert_eq!(h.app_context.get_selected_command_idx(), 1);
    h.handle(AppEvents::Screen(ScreenEvents::Main(MainScreenEvent::NextNamespace)));
    assert_eq!(h.app_context.namespaces_context.current_namespace(), "ns1");
    assert_eq!(h.app_context.get_selected_command_idx(), 0);
    h.handle(AppEvents::Screen(ScreenEvents::Main(MainScreenEvent::PreviousNamespace)));
    h.handle(AppEvents::Screen(ScreenEvents::Main(MainScreenEvent::PreviousNamespace)));
    assert_eq!(h.app_context.namespaces_context.current_namespace(), "ns2");
}

#[test]
fn should_type_in_the_query_box() {
    let mut h = handler();
    h.handle(AppEvents::QueryBox(QueryboxEvent::Active));
    assert!(h.ui_context.querybox_focus());
    assert!(h.ui_context.querybox().in_focus());
    h.handle(AppEvents::QueryBox(QueryboxEvent::Input(FieldEdit::Type('q'))));
    assert_eq!(h.ui_context.get_querybox_input(), "q");
    h.handle(AppEvents::QueryBox(QueryboxEvent::Deactive));
    assert!(!h.ui_context.querybox_focus());
    assert!(!h.ui_context.querybox().in_focus());
}

#[test]
fn should_filter_the_commands_of_the_current_namespace() {
    let mut h = handler();
    h.app_context.next_namespace();
    let shown = h.app_context.filter_commands(String::new());
    let aliases: Vec<String> = shown.iter().map(|c| c.alias.clone()).collect();
    assert_eq!(aliases, vec!["b", "c"]);
    assert_eq!(*h.ui_context.get_selected_form_field().unwrap().field_type(), FieldType::Alias);
}
