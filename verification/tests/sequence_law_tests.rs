use cl::command::CommandBuilder;
use cl::command::Command;
use cl::gui::entities::contexts::commands_context::{CacheInfo, CommandsContext};
use cl::gui::entities::field::{Field, FieldType};
use cl::gui::entities::contexts::namespaces_context::NamespacesContext;
use cl::gui::entities::contexts::popup_context::PopupContext;
use cl::gui::entities::contexts::Selectable;
use cl::gui::entities::events::app_events::PopupCallbackAction;
use cl::gui::entities::states::vi_state::{ViMode, ViState};
use cl::gui::widgets::popup::Popup;

#[test]
fn popup_selection_stays_among_the_choices() {
    let mut context = PopupContext::new();
    context.set_popup(Some(Popup::from_warning(
        "delete?".to_string(),
        PopupCallbackAction::DeleteCommand,
    )));
    for step in 0..9 {
        if step % 4 == 3 {
            context.previous();
        } else {
            context.next();
        }
        let selected = context.state().selected().unwrap();
        assert!(selected < 2);
        assert!(context.answer().is_none());
    }
    context.clear();
    assert_eq!(context.state().selected(), Some(0));
    assert!(context.answer().is_none());
}

#[test]
fn popup_with_one_choice_keeps_it_selected() {
    let mut context = PopupContext::new();
    context.set_popup(Some(Popup::from_error("failed".to_string())));
    context.next();
    assert_eq!(context.state().selected(), Some(0));
    context.previous();
    assert_eq!(context.state().selected(), Some(0));
    assert!(context.answer().is_none());
}

#[test]
fn vi_state_keeps_its_flag_and_the_last_mode() {
    let mut state = ViState::init(true);
    assert_eq!(*state.mode(), ViMode::Normal);
    state.change_mode_to(ViMode::Insert);
    state.change_mode_to(ViMode::Normal);
    state.change_mode_to(ViMode::Insert);
    assert!(state.enabled());
    assert_eq!(*state.mode(), ViMode::Insert);

    let mut state = ViState::init(false);
    state.change_mode_to(ViMode::Insert);
    assert!(!state.enabled());
    assert_eq!(*state.mode(), ViMode::Insert);
}

#[test]
fn namespace_position_stays_in_range_over_moves() {
    let mut context = NamespacesContext::new(vec!["b".to_string(), "a".to_string()]);
    assert_eq!(context.get_selected_namespace_idx(), 0);
    for step in 0..11 {
        if step % 3 == 0 {
            context.previous();
        } else {
            context.next();
        }
        assert!(context.get_selected_namespace_idx() < context.namespaces().len());
    }
    context.reset_context();
    assert_eq!(context.get_selected_namespace_idx(), 0);
}

#[test]
fn filtering_a_namespace_gives_its_commands_and_keeps_them_cached() {
    let mut builder = CommandBuilder::default();
    builder.alias("zeta").namespace("tools").command("zeta-cmd");
    let zeta = builder.build();
    let mut builder = CommandBuilder::default();
    builder.alias("alpha").namespace("tools").command("alpha-cmd");
    let alpha = builder.build();
    let mut builder = CommandBuilder::default();
    builder.alias("other").namespace("misc").command("other-cmd");
    let other = builder.build();

    let mut context = CommandsContext::new(vec![zeta, alpha, other]);
    context.filter_commands("tools", "");
    let shown: Vec<String> = context.filtered_commands().iter().map(|c| c.alias.clone()).collect();
    assert_eq!(shown, vec!["alpha".to_string(), "zeta".to_string()]);
    assert_eq!(context.commands_cache().get_entry("tools").len(), 2);

    context.filter_commands("nowhere", "");
    assert!(context.filtered_commands().is_empty());
    assert!(context.commands_cache().contains_namespace("nowhere"));
    assert!(context.commands_cache().get_entry("nowhere").is_empty());
}

#[test]
fn popup_set_last_is_the_one_given_back() {
    let mut context = PopupContext::new();
    context.set_popup(Some(Popup::from_error("first".to_string())));
    context.set_popup(Some(Popup::from_warning(
        "second".to_string(),
        PopupCallbackAction::DeleteCommand,
    )));
    context.next();
    context.previous();
    context.state_mut().select(Some(1));
    let shown = context.get_popup().unwrap();
    assert_eq!(shown.message(), "second");
    assert_eq!(shown.choices().len(), 2);
    context.clear();
    assert!(context.get_popup().is_none());
}

#[test]
fn typing_then_backspace_in_the_middle_restores_the_field() {
    let mut field = Field::new("alias".to_string(), "Alias".to_string(), FieldType::Alias, true);
    field.set_input("abcd".to_string());
    field.move_cursor_foward();
    field.move_cursor_foward();
    assert_eq!(field.cursor_position(), 2);
    field.on_char('x');
    assert_eq!(field.input_text(), "abxcd");
    assert_eq!(field.cursor_position(), 3);
    field.on_backspace();
    assert_eq!(field.input_text(), "abcd");
    assert_eq!(field.cursor_position(), 2);
}

fn command(alias: &str, namespace: &str) -> Command {
    let mut builder = CommandBuilder::default();
    builder.alias(alias).namespace(namespace).command("run");
    builder.build()
}

fn aliases(commands: Vec<Command>) -> Vec<String> {
    commands.iter().map(|c| c.alias.clone()).collect()
}

#[test]
fn inserting_a_command_keeps_other_namespaces_and_sorts_its_own() {
    let mut cache = CacheInfo::new(vec![
        command("beta", "one"),
        command("Alpha", "one"),
        command("zed", "two"),
        command("mid", "two"),
    ]);
    assert_eq!(aliases(cache.get_entry("one")), vec!["Alpha".to_string(), "beta".to_string()]);
    let two_before = aliases(cache.get_entry("two"));
    assert_eq!(two_before, vec!["mid".to_string(), "zed".to_string()]);

    cache.insert_entry(command("able", "one"));
    assert_eq!(
        aliases(cache.get_entry("one")),
        vec!["able".to_string(), "Alpha".to_string(), "beta".to_string()]
    );
    assert_eq!(aliases(cache.get_entry("two")), two_before);

    cache.insert_entry(command("new", "three"));
    assert_eq!(aliases(cache.get_entry("three")), vec!["new".to_string()]);
    assert_eq!(aliases(cache.get_entry("two")), two_before);
}

#[test]
fn filtering_keeps_the_searched_namespace_in_the_cache() {
    let mut context = CommandsContext::new(vec![command("b", "tools"), command("a", "tools")]);
    let found = context.filter("tools", "");
    assert_eq!(aliases(found), vec!["a".to_string(), "b".to_string()]);
    let found = context.filter("elsewhere", "");
    assert!(found.is_empty());
    assert!(context.commands_cache().contains_namespace("elsewhere"));
    let all = context.filter("All", "");
    assert_eq!(all.len(), 2);
    assert!(!context.commands_cache().contains_namespace("All"));
}
