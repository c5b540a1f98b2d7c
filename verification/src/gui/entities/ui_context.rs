//! What the interface shows and edits: the form, the popup and its
//! answers, the screen and its size class, and the query box.
use vstd::prelude::*;
use crate::command::{Command, CommandView};
use crate::gui::entities::answer_state::AnswerState;
use crate::gui::entities::context::{edit_field, edited, FieldEdit};
use crate::gui::entities::contexts::Selectable;
use crate::gui::entities::contexts::field_context::{
    built_command, edited_command, field_list, filled, focused, moved, emptied, order_for,
    typed_in, unfocused, FieldContext, FormView,
};
use crate::gui::entities::contexts::namespaces_context::{law_wrap_round_trip, wrap_next, wrap_previous};
use crate::gui::entities::contexts::popup_context::{selected_or_first, PopupContext};
use crate::gui::entities::events::app_events::PopupCallbackAction;
use crate::gui::entities::field::{Field, FieldType, FieldView};
use crate::gui::entities::popup_context::popup_view;
use crate::gui::entities::states::field_state::modified;
use crate::gui::entities::states::ui_state::{UiState, ViewMode};
use crate::gui::entities::terminal::TerminalSize;
use crate::gui::widgets::popup::{Answer, MessageType, Popup, PopupView};
use crate::text::own;

verus! {

/// The interface taken by view.
pub struct UiView {
    pub form: FormView,
    pub popup: Option<PopupView>,
    pub answer: Option<Answer>,
    pub choice: Option<usize>,
    pub ui: UiState,
    pub query: FieldView,
}

/// The form with its selection reset: the field in focus loses the
/// focus, and the alias field is selected and takes it.
pub open spec fn reset_selection(f: FormView) -> FormView {
    focused(FormView { selected: Some(FieldType::Alias), ..unfocused(f) })
}

/// The answer selected in the popup shown, if both are there.
pub open spec fn selected_choice(v: UiView) -> Option<Answer> {
    match (v.choice, v.popup) {
        (Some(i), Some(p)) => Some(p.choices[i as int]),
        _ => None,
    }
}

/// Whether the answer selected, if any, is one the popup shown offers.
pub open spec fn choice_in_range(v: UiView) -> bool {
    match (v.choice, v.popup) {
        (Some(i), Some(p)) => i < p.choices.len(),
        _ => true,
    }
}

/// A warning popup asking to confirm, with the action of its Ok.
pub open spec fn warning(message: Seq<char>, callback: PopupCallbackAction) -> PopupView {
    PopupView { message, message_type: MessageType::Warning, choices: seq![Answer::Okay, Answer::Cancel], callback }
}

/// An error popup with Ok alone.
pub open spec fn error_popup(message: Seq<char>) -> PopupView {
    PopupView { message, message_type: MessageType::Error, choices: seq![Answer::Okay], callback: PopupCallbackAction::NoAction }
}

/// The next answer of the popup shown selected, or the previous one; the
/// first after the last and the last before the first.
pub open spec fn choice_stepped(v: UiView, forward: bool) -> UiView {
    UiView {
        choice: match v.popup {
            Some(p) => Some(
                (if forward {
                    wrap_next(selected_or_first(v.choice), p.choices.len() as int)
                } else {
                    wrap_previous(selected_or_first(v.choice), p.choices.len() as int)
                }) as usize,
            ),
            None => v.choice,
        },
        ..v
    }
}

/// Selecting the next answer of the popup and then the previous one, or the
/// other way round, comes back to the answer selected.
pub proof fn law_choice_round_trip(v: UiView)
    requires
        v.popup is Some,
        v.choice matches Some(i) && (i as int) < v.popup->0.choices.len(),
        v.popup->0.choices.len() <= usize::MAX,
    ensures
        choice_stepped(choice_stepped(v, true), false) == v,
        choice_stepped(choice_stepped(v, false), true) == v,
{
    let i = v.choice->0 as int;
    let n = v.popup->0.choices.len() as int;
    law_wrap_round_trip(i, n);
    let a = wrap_next(i, n);
    let b = wrap_previous(i, n);
    law_wrap_round_trip(a, n);
    law_wrap_round_trip(b, n);
    assert(a as usize as int == a);
    assert(b as usize as int == b);
    assert(selected_or_first(Some(a as usize)) == a);
    assert(selected_or_first(Some(b as usize)) == b);
}

/// What takes a key pressed.
#[derive(Clone, Copy, Debug, PartialEq, Eq, Structural)]
pub enum InputTarget {
    /// The popup shown.
    Popup,
    /// The help shown.
    Help,
    /// The query box, which has the focus.
    QueryBox,
    /// The screen shown.
    Screen(ViewMode),
}

/// What takes a key pressed: the popup when one is shown, else the help
/// when shown, else the query box when it has the focus, else the screen.
pub open spec fn target_of(v: UiView) -> InputTarget {
    if v.ui.show_popup {
        InputTarget::Popup
    } else if v.ui.show_help {
        InputTarget::Help
    } else if v.ui.querybox_focus {
        InputTarget::QueryBox
    } else {
        InputTarget::Screen(v.ui.view_mode)
    }
}

/// The form, the popup, the screen and the query box.
pub struct UIContext {
    form_fields_context: FieldContext,
    popup_context: PopupContext,
    ui_state: UiState,
    query_box: Field,
}

impl View for UIContext {
    type V = UiView;

    closed spec fn view(&self) -> UiView {
        UiView {
            form: self.form_fields_context.form(),
            popup: popup_view(self.popup_context.popup),
            answer: self.popup_context.answer,
            choice: self.popup_context.answer_state.selected,
            ui: self.ui_state,
            query: self.query_box@,
        }
    }
}

impl UIContext {
    /// The form keeps its fields in place and the query box is one.
    pub closed spec fn well_formed(&self) -> bool {
        &&& self.form_fields_context.well_formed()
        &&& self.query_box@.field_type == FieldType::QueryBox
    }

    /// An empty form with the alias field selected, no command, no popup,
    /// the main screen at the medium size, an empty query box.
    pub fn new() -> (r: UIContext)
        ensures
            r.well_formed(),
            r@.form.selected == Some(FieldType::Alias),
            r@.form.command is None,
            r@.form.order == crate::gui::entities::contexts::field_context::medium_order(),
            r@.popup is None,
            r@.answer is None,
            r@.choice == Some(0usize),
            r@.ui == (UiState {
                view_mode: ViewMode::Main,
                screen_size: TerminalSize::Medium,
                show_popup: false,
                show_help: false,
                querybox_focus: false,
            }),
            r@.query.field_type == FieldType::QueryBox,
            r@.query.input.len() == 0,
            !r@.query.in_focus,
    {
        let mut context = UIContext {
            form_fields_context: FieldContext::new(),
            popup_context: PopupContext::new(),
            ui_state: UiState::new(TerminalSize::Medium),
            query_box: Field::new(own("query"), own(" Query "), FieldType::QueryBox, false),
        };
        context.select_form_field_type(Some(FieldType::Alias));
        context.select_command(None);
        context
    }

    /// Shows a warning asking to confirm, with the action of its Ok.
    pub fn set_dialog_popup(&mut self, message: String, callback_action: PopupCallbackAction)
        ensures
            final(self)@ == (UiView { popup: Some(warning(message@, callback_action)), ..old(self)@ }),
            final(self).well_formed() == old(self).well_formed(),
    {
        self.set_popup(Some(Popup::from_warning(message, callback_action)))
    }

    /// Shows an error.
    pub fn set_error_popup(&mut self, message: String)
        ensures
            final(self)@ == (UiView { popup: Some(error_popup(message@)), ..old(self)@ }),
            final(self).well_formed() == old(self).well_formed(),
    {
        self.set_popup(Some(Popup::from_error(message)))
    }

    /// The command edited, if any.
    pub fn get_selected_command(&self) -> (r: Option<&Command>)
        ensures
            match r {
                Some(c) => self@.form.command == Some(c@),
                None => self@.form.command is None,
            },
    {
        self.form_fields_context.selected_command()
    }

    /// Fills the form with the command edited.
    pub fn set_selected_command_input(&mut self)
        requires
            old(self).well_formed(),
        ensures
            final(self).well_formed(),
            final(self)@ == (UiView { form: filled(old(self)@.form), ..old(self)@ }),
    {
        self.form_fields_context.popuplate_form();
    }

    /// Sets the command edited.
    pub fn select_command(&mut self, selected_command: Option<Command>)
        ensures
            final(self).well_formed() == old(self).well_formed(),
            final(self)@ == (UiView {
                form: FormView {
                    command: match selected_command {
                        Some(c) => Some(c@),
                        None => None,
                    },
                    ..old(self)@.form
                },
                ..old(self)@
            }),
    {
        self.form_fields_context.select_command(selected_command)
    }

    /// Selects a form field, or none; the fields' focus stays.
    pub fn select_form_field_type(&mut self, field_type: Option<FieldType>)
        requires
            old(self).well_formed(),
            field_type != Some(FieldType::QueryBox),
        ensures
            final(self).well_formed(),
            final(self)@ == (UiView { form: FormView { selected: field_type, ..old(self)@.form }, ..old(self)@ }),
    {
        self.form_fields_context.select_field(field_type);
    }

    /// Empties the form.
    pub fn clear_form_fields(&mut self)
        requires
            old(self).well_formed(),
        ensures
            final(self).well_formed(),
            final(self)@ == (UiView { form: emptied(old(self)@.form), ..old(self)@ }),
    {
        self.form_fields_context.clear_inputs()
    }

    /// The form's fields, in the places of their kinds.
    pub fn get_form_fields(&self) -> (r: &Vec<Field>)
        ensures
            field_list(r@) == self@.form.fields,
    {
        self.form_fields_context.get_fields()
    }

    /// The command edited, with the texts of the form.
    pub fn edit_command(&self) -> (r: Command)
        requires
            self.well_formed(),
            self@.form.command is Some,
        ensures
            r@ == edited_command(self@.form, self@.form.command->0),
    {
        self.form_fields_context.build_edited_command()
    }

    /// The command the form makes.
    pub fn build_new_command(&self) -> (r: Command)
        requires
            self.well_formed(),
        ensures
            r@ == built_command(self@.form),
    {
        self.form_fields_context.build_new_command()
    }

    /// The form field selected, if any.
    pub fn get_selected_form_field(&self) -> (r: Option<&Field>)
        requires
            self.well_formed(),
        ensures
            match self@.form.selected {
                Some(ft) => r matches Some(f) && f@ == self@.form.fields[crate::gui::entities::contexts::field_context::place(ft)],
                None => r is None,
            },
    {
        self.form_fields_context.selected_field()
    }

    /// Moves the form's focus to the next field of the order.
    pub fn next_form_field(&mut self)
        requires
            old(self).well_formed(),
        ensures
            final(self).well_formed(),
            final(self)@ == (UiView { form: moved(old(self)@.form, 1), ..old(self)@ }),
    {
        self.form_fields_context.next()
    }

    /// Moves the form's focus to the previous field of the order.
    pub fn previous_form_field(&mut self)
        requires
            old(self).well_formed(),
        ensures
            final(self).well_formed(),
            final(self)@ == (UiView { form: moved(old(self)@.form, 4), ..old(self)@ }),
    {
        self.form_fields_context.previous()
    }

    /// The text of the query box.
    pub fn get_querybox_input(&self) -> (r: String)
        ensures
            r@ == self@.query.input,
    {
        own(self.query_box.input_text())
    }

    /// The query box takes the focus.
    pub fn activate_focus(&mut self)
        ensures
            final(self)@ == (UiView { query: FieldView { in_focus: true, ..old(self)@.query }, ..old(self)@ }),
            final(self).well_formed() == old(self).well_formed(),
    {
        self.query_box.activate_focus()
    }

    /// The query box loses the focus.
    pub fn deactivate_focus(&mut self)
        ensures
            final(self)@ == (UiView { query: FieldView { in_focus: false, ..old(self)@.query }, ..old(self)@ }),
            final(self).well_formed() == old(self).well_formed(),
    {
        self.query_box.deactivate_focus()
    }

    /// The query box.
    pub fn querybox(&self) -> (r: &Field)
        ensures
            r@ == self@.query,
    {
        &self.query_box
    }

    /// Applies a keystroke to the query box.
    pub fn handle_querybox_input(&mut self, e: FieldEdit)
        ensures
            final(self)@ == (UiView { query: edited(old(self)@.query, e), ..old(self)@ }),
            final(self).well_formed() == old(self).well_formed(),
    {
        edit_field(&mut self.query_box, e)
    }

    /// A copy of the popup shown.
    pub fn popup(&self) -> (r: Option<Popup>)
        ensures
            popup_view(r) == self@.popup,
    {
        self.popup_context.get_popup()
    }

    /// Shows a popup, or none.
    pub fn set_popup(&mut self, popup: Option<Popup>)
        ensures
            final(self)@ == (UiView { popup: popup_view(popup), ..old(self)@ }),
            final(self).well_formed() == old(self).well_formed(),
    {
        self.popup_context.set_popup(popup);
    }

    /// The answer given to the popup.
    pub fn get_popup_answer(&self) -> (r: Option<Answer>)
        ensures
            r == self@.answer,
    {
        self.popup_context.answer()
    }

    /// Closes the popup and forgets the answer; the first is selected.
    pub fn clear_popup_context(&mut self)
        ensures
            final(self)@ == (UiView { popup: None, answer: None, choice: Some(0usize), ..old(self)@ }),
            final(self).well_formed() == old(self).well_formed(),
    {
        self.popup_context.clear()
    }

    /// Selects the next answer of the popup shown.
    pub fn next_choice(&mut self)
        ensures
            final(self)@ == choice_stepped(old(self)@, true),
            final(self).well_formed() == old(self).well_formed(),
    {
        self.popup_context.next()
    }

    /// Selects the previous answer of the popup shown.
    pub fn previous_choice(&mut self)
        ensures
            final(self)@ == choice_stepped(old(self)@, false),
            final(self).well_formed() == old(self).well_formed(),
    {
        self.popup_context.previous()
    }

    /// The answer selected in the popup shown, if both are there.
    pub fn get_selected_choice(&self) -> (r: Option<Answer>)
        requires
            choice_in_range(self@),
        ensures
            r == selected_choice(self@),
    {
        match self.popup_context.state().selected() {
            Some(choice) => match &self.popup_context.popup {
                Some(p) => Some(p.choices()[choice]),
                None => None,
            },
            None => None,
        }
    }

    /// The selected answer, to change it.
    pub fn get_choices_state_mut(&mut self) -> (r: &mut AnswerState)
        ensures
            r.selected == old(self)@.choice,
            final(self)@ == (UiView { choice: final(r).selected, ..old(self)@ }),
            final(self).well_formed() == old(self).well_formed(),
    {
        self.popup_context.state_mut()
    }

    /// Resets the form's selection: the field in focus loses the focus and
    /// the alias field takes it.
    pub fn reset_form_field_selected_field(&mut self)
        requires
            old(self).well_formed(),
        ensures
            final(self).well_formed(),
            final(self)@ == (UiView { form: reset_selection(old(self)@.form), ..old(self)@ }),
    {
        self.form_fields_context.clear_selection();
        self.select_form_field_type(Some(FieldType::Alias));
        self.form_fields_context.activate_selection();
    }

    /// Applies a keystroke to the form field selected.
    pub fn handle_form_input(&mut self, e: FieldEdit)
        requires
            old(self).well_formed(),
        ensures
            final(self).well_formed(),
            final(self)@ == (UiView { form: typed_in(old(self)@.form, e), ..old(self)@ }),
    {
        self.form_fields_context.handle_input(e)
    }

    /// Whether a form field's text was changed since it was recorded.
    pub fn is_form_modified(&self) -> (r: bool)
        requires
            self.well_formed(),
        ensures
            r == modified(self@.form.original, self@.form.edited),
    {
        self.form_fields_context.is_modified()
    }

    /// Takes a new size class and orders the form for it.
    pub fn resize_to(&mut self, size: TerminalSize)
        requires
            old(self).well_formed(),
        ensures
            final(self).well_formed(),
            final(self)@ == (UiView {
                ui: UiState { screen_size: size, ..old(self)@.ui },
                form: FormView { order: order_for(size), ..old(self)@.form },
                ..old(self)@
            }),
    {
        self.ui_state.set_screen_size(size);
        self.order_fields();
    }

    /// Orders the form for the size class.
    pub fn order_fields(&mut self)
        requires
            old(self).well_formed(),
        ensures
            final(self).well_formed(),
            final(self)@ == (UiView { form: FormView { order: order_for(old(self)@.ui.screen_size), ..old(self)@.form }, ..old(self)@ }),
    {
        let size = self.ui_state.screen_size();
        self.form_fields_context.order_field_by_size(size)
    }

    /// Whether the query box has the focus.
    pub fn querybox_focus(&self) -> (r: bool)
        ensures
            r == self@.ui.querybox_focus,
    {
        self.ui_state.querybox_focus()
    }

    /// Gives or takes the query box's focus.
    pub fn set_querybox_focus(&mut self, focus: bool)
        ensures
            final(self)@ == (UiView { ui: UiState { querybox_focus: focus, ..old(self)@.ui }, ..old(self)@ }),
            final(self).well_formed() == old(self).well_formed(),
    {
        self.ui_state.set_querybox_focus(focus)
    }

    /// The screen shown.
    pub fn view_mode(&self) -> (r: ViewMode)
        ensures
            r == self@.ui.view_mode,
    {
        self.ui_state.view_mode()
    }

    /// Shows a screen.
    pub fn set_view_mode(&mut self, view_mode: ViewMode)
        ensures
            final(self)@ == (UiView { ui: UiState { view_mode, ..old(self)@.ui }, ..old(self)@ }),
            final(self).well_formed() == old(self).well_formed(),
    {
        self.ui_state.set_view_mode(view_mode)
    }

    /// The size class.
    pub fn terminal_size(&self) -> (r: TerminalSize)
        ensures
            r == self@.ui.screen_size,
    {
        self.ui_state.screen_size()
    }

    /// Takes a size class; the form's order stays.
    pub fn set_terminal_size(&mut self, terminal_size: TerminalSize)
        ensures
            final(self)@ == (UiView { ui: UiState { screen_size: terminal_size, ..old(self)@.ui }, ..old(self)@ }),
            final(self).well_formed() == old(self).well_formed(),
    {
        self.ui_state.set_screen_size(terminal_size)
    }

    /// Whether a popup is shown.
    pub fn show_popup(&self) -> (r: bool)
        ensures
            r == self@.ui.show_popup,
    {
        self.ui_state.show_popup()
    }

    /// Shows or hides the popup.
    pub fn set_show_popup(&mut self, should_show: bool)
        ensures
            final(self)@ == (UiView { ui: UiState { show_popup: should_show, ..old(self)@.ui }, ..old(self)@ }),
            final(self).well_formed() == old(self).well_formed(),
    {
        self.ui_state.set_show_popup(should_show)
    }

    /// What takes a key pressed.
    pub fn input_target(&self) -> (r: InputTarget)
        ensures
            r == target_of(self@),
    {
        if self.show_popup() {
            InputTarget::Popup
        } else if self.show_help() {
            InputTarget::Help
        } else if self.querybox_focus() {
            InputTarget::QueryBox
        } else {
            InputTarget::Screen(self.view_mode())
        }
    }

    /// Whether the help is shown.
    pub fn show_help(&self) -> (r: bool)
        ensures
            r == self@.ui.show_help,
    {
        self.ui_state.show_help()
    }

    /// Shows or hides the help.
    pub fn set_show_help(&mut self, should_show: bool)
        ensures
            final(self)@ == (UiView { ui: UiState { show_help: should_show, ..old(self)@.ui }, ..old(self)@ }),
            final(self).well_formed() == old(self).well_formed(),
    {
        self.ui_state.set_show_help(should_show)
    }
}

} // verus!
