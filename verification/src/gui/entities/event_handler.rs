//! The decisions of the interface: for each event, how the main screen's
//! data and the interface change, and what has to be done outside (quit,
//! write the commands, copy a text). What follows a write or a copy is
//! decided once its outcome is known.
use vstd::prelude::*;
use crate::command::{validation, Command, CommandView};
use crate::commands::{has_key, law_remove_drops_only_key, same_key, without_key};
use crate::gui::entities::contexts::application_context::{
    added, command_stepped, deleted, edited_in, exists_message, namespace_stepped, reloaded, AppView,
    ApplicationContext,
};
use crate::gui::entities::contexts::field_context::{
    built_command, edited_command, emptied, filled, moved, order_for, typed_in, FormView,
};
use crate::gui::entities::context::edited;
use crate::gui::entities::events::app_events::{
    AppEvents, CommandEvents, FormScreenEvent, MainScreenEvent, PopupCallbackAction, PopupEvent,
    PopupType, QueryboxEvent, RenderEvents, ScreenEvents,
};
use crate::gui::entities::field::FieldView;
use crate::gui::entities::states::field_state::modified;
use crate::gui::entities::states::ui_state::{UiState, ViewMode};
use crate::gui::entities::ui_context::{
    choice_in_range, choice_stepped, error_popup, reset_selection, selected_choice, warning, UIContext, UiView,
};
use crate::gui::widgets::popup::Answer;
use crate::text::own;

verus! {

/// What a write of the commands was for, to finish once it is done.
#[derive(Clone, Copy, Debug, PartialEq, Eq, Structural)]
pub enum Pending {
    /// A new command was added.
    Inserted,
    /// A command was edited.
    Edited,
    /// A command was deleted.
    Deleted,
}

/// What has to be done outside the interface after an event.
#[derive(Debug)]
pub enum Effect {
    /// Nothing.
    Done,
    /// The interface stops.
    Quit,
    /// The commands are written; the outcome goes to `finish_save`.
    Save { commands: Vec<Command>, then: Pending },
    /// The text is copied to the clipboard; the outcome goes to
    /// `finish_copy`.
    Copy(String),
}

/// An effect taken by view.
pub enum EffectView {
    Done,
    Quit,
    Save(Seq<CommandView>, Pending),
    Copy(Seq<char>),
}

/// An effect taken by view.
pub open spec fn effect_view(e: Effect) -> EffectView {
    match e {
        Effect::Done => EffectView::Done,
        Effect::Quit => EffectView::Quit,
        Effect::Save { commands, then } => EffectView::Save(crate::commands::views(commands@), then),
        Effect::Copy(t) => EffectView::Copy(t@),
    }
}

/// The interface taken by view: the main screen's data, what the
/// interface shows, and whether it stops.
pub struct HandlerView {
    pub app: AppView,
    pub ui: UiView,
    pub quit: bool,
}

/// The interface showing a screen.
pub open spec fn with_mode(u: UiView, m: ViewMode) -> UiView {
    UiView { ui: UiState { view_mode: m, ..u.ui }, ..u }
}

/// The interface showing or hiding the popup.
pub open spec fn with_popup_shown(u: UiView, b: bool) -> UiView {
    UiView { ui: UiState { show_popup: b, ..u.ui }, ..u }
}

/// The interface showing or hiding the help.
pub open spec fn with_help(u: UiView, b: bool) -> UiView {
    UiView { ui: UiState { show_help: b, ..u.ui }, ..u }
}

/// The interface showing an error popup.
pub open spec fn shown_error(u: UiView, message: Seq<char>) -> UiView {
    UiView { popup: Some(error_popup(message)), ..with_popup_shown(u, true) }
}

/// The interface with the popup closed and its answer forgotten, the
/// first answer selected.
pub open spec fn popup_cleared(u: UiView) -> UiView {
    UiView { popup: None, answer: None, choice: Some(0usize), ..u }
}

/// The interface with the form's selection reset.
pub open spec fn form_reset(u: UiView) -> UiView {
    UiView { form: reset_selection(u.form), ..u }
}

/// The interface with the form ordered for the size class.
pub open spec fn form_ordered(u: UiView) -> UiView {
    UiView { form: FormView { order: order_for(u.ui.screen_size), ..u.form }, ..u }
}

/// The interface back on the main screen with the form's selection reset.
pub open spec fn back_to_main(u: UiView) -> UiView {
    form_reset(with_mode(u, ViewMode::Main))
}

/// The message asking to confirm leaving a changed form.
pub open spec fn unsaved_message() -> Seq<char> {
    "Wait, you didn't save your changes! Are you sure you want to quit?"@
}

/// Whether an event can be handled in a state: the command edited exists
/// for an edit, the answer selected is offered by the popup and its Ok
/// shows no form, and a command is shown to move to.
pub open spec fn admissible(s: HandlerView, e: AppEvents) -> bool {
    match e {
        AppEvents::Run(CommandEvents::Edit) => s.ui.form.command is Some,
        AppEvents::Popup(PopupEvent::Answer) => {
            &&& choice_in_range(s.ui)
            &&& (selected_choice(s.ui) == Some(Answer::Okay) ==> (s.ui.popup matches Some(p)
                && p.callback != PopupCallbackAction::Render(RenderEvents::Edit)
                && p.callback != PopupCallbackAction::Render(RenderEvents::Insert)))
        },
        AppEvents::Screen(ScreenEvents::Main(MainScreenEvent::NextCommand)) => s.app.shown.len() > 0,
        AppEvents::Screen(ScreenEvents::Main(MainScreenEvent::PreviousCommand)) => s.app.shown.len() > 0,
        _ => true,
    }
}

/// What a command event does.
pub open spec fn run_step(s: HandlerView, e: CommandEvents) -> (HandlerView, EffectView) {
    match e {
        CommandEvents::Execute => match s.ui.form.command {
            Some(c) => (HandlerView { app: AppView { to_run: Some(c), ..s.app }, quit: true, ..s }, EffectView::Quit),
            None => (HandlerView { quit: true, ..s }, EffectView::Quit),
        },
        CommandEvents::Insert => {
            let (a, r) = added(s.app, built_command(s.ui.form));
            match r {
                Ok(list) => (HandlerView { app: a, ..s }, EffectView::Save(list, Pending::Inserted)),
                Err(m) => (HandlerView { app: a, ui: shown_error(s.ui, m), ..s }, EffectView::Done),
            }
        },
        CommandEvents::Edit => {
            let cur = s.ui.form.command->0;
            let (a, r) = edited_in(s.app, edited_command(s.ui.form, cur), cur);
            match r {
                Ok(list) => (HandlerView { app: a, ..s }, EffectView::Save(list, Pending::Edited)),
                Err(m) => (HandlerView { app: a, ui: shown_error(s.ui, m), ..s }, EffectView::Done),
            }
        },
        CommandEvents::Copy => match s.ui.form.command {
            Some(c) => (s, EffectView::Copy(c.command)),
            None => (s, EffectView::Done),
        },
    }
}

/// What showing a screen does.
pub open spec fn render_step(s: HandlerView, e: RenderEvents) -> HandlerView {
    match e {
        RenderEvents::Main => if modified(s.ui.form.original, s.ui.form.edited) {
            HandlerView {
                ui: UiView {
                    popup: Some(warning(unsaved_message(), PopupCallbackAction::Render(RenderEvents::Main))),
                    ..with_popup_shown(s.ui, true)
                },
                ..s
            }
        } else {
            HandlerView { app: reloaded(s.app), ui: back_to_main(s.ui), ..s }
        },
        RenderEvents::Edit => {
            let u = with_mode(s.ui, ViewMode::Edit);
            if u.form.command is Some {
                let u = form_reset(form_ordered(u));
                HandlerView { ui: UiView { form: filled(emptied(u.form)), ..u }, ..s }
            } else {
                HandlerView { ui: u, ..s }
            }
        },
        RenderEvents::Insert => {
            let u = form_reset(with_mode(form_ordered(s.ui), ViewMode::Insert));
            HandlerView { ui: UiView { form: emptied(u.form), ..u }, ..s }
        },
    }
}

/// What answering the popup does; a delete asks for the write first.
pub open spec fn answer_step(s: HandlerView) -> (HandlerView, EffectView) {
    match selected_choice(s.ui) {
        Some(Answer::Okay) => match s.ui.popup->0.callback {
            PopupCallbackAction::DeleteCommand => match s.ui.form.command {
                Some(c) => {
                    let a = deleted(s.app, c);
                    (HandlerView { app: a, ..s }, EffectView::Save(a.list, Pending::Deleted))
                },
                None => (HandlerView { ui: with_popup_shown(s.ui, false), ..s }, EffectView::Done),
            },
            PopupCallbackAction::Render(RenderEvents::Main) => (
                HandlerView {
                    app: reloaded(s.app),
                    ui: with_popup_shown(popup_cleared(back_to_main(s.ui)), false),
                    ..s
                },
                EffectView::Done,
            ),
            _ => (HandlerView { ui: with_popup_shown(popup_cleared(s.ui), false), ..s }, EffectView::Done),
        },
        Some(Answer::Cancel) => (HandlerView { ui: with_popup_shown(popup_cleared(s.ui), false), ..s }, EffectView::Done),
        None => (HandlerView { ui: with_popup_shown(s.ui, false), ..s }, EffectView::Done),
    }
}

/// What a popup event does.
pub open spec fn popup_step(s: HandlerView, e: PopupEvent) -> (HandlerView, EffectView) {
    match e {
        PopupEvent::Enable(PopupType::Help) => (HandlerView { ui: with_help(s.ui, true), ..s }, EffectView::Done),
        PopupEvent::Enable(PopupType::Dialog { message, callback_action }) => (
            HandlerView { ui: UiView { popup: Some(warning(message@, callback_action)), ..with_popup_shown(s.ui, true) }, ..s },
            EffectView::Done,
        ),
        PopupEvent::Answer => answer_step(s),
        PopupEvent::Disable => (
            HandlerView {
                ui: if s.ui.ui.show_help { with_help(s.ui, false) } else { with_popup_shown(popup_cleared(s.ui), false) },
                ..s
            },
            EffectView::Done,
        ),
        PopupEvent::NextChoice => (HandlerView { ui: choice_stepped(s.ui, true), ..s }, EffectView::Done),
        PopupEvent::PreviousChoice => (HandlerView { ui: choice_stepped(s.ui, false), ..s }, EffectView::Done),
    }
}

/// What a query box event does.
pub open spec fn querybox_step(s: HandlerView, e: QueryboxEvent) -> HandlerView {
    match e {
        QueryboxEvent::Active => HandlerView {
            ui: UiView {
                query: FieldView { in_focus: true, ..s.ui.query },
                ui: UiState { querybox_focus: true, ..s.ui.ui },
                ..s.ui
            },
            ..s
        },
        QueryboxEvent::Deactive => HandlerView {
            ui: UiView {
                query: FieldView { in_focus: false, ..s.ui.query },
                ui: UiState { querybox_focus: false, ..s.ui.ui },
                ..s.ui
            },
            ..s
        },
        QueryboxEvent::Input(k) => HandlerView { ui: UiView { query: edited(s.ui.query, k), ..s.ui }, ..s },
    }
}

/// What a screen event does.
pub open spec fn screen_step(s: HandlerView, e: ScreenEvents) -> HandlerView {
    match e {
        ScreenEvents::Main(MainScreenEvent::NextCommand) => HandlerView { app: command_stepped(s.app, true), ..s },
        ScreenEvents::Main(MainScreenEvent::PreviousCommand) => HandlerView { app: command_stepped(s.app, false), ..s },
        ScreenEvents::Main(MainScreenEvent::NextNamespace) => HandlerView { app: namespace_stepped(s.app, true), ..s },
        ScreenEvents::Main(MainScreenEvent::PreviousNamespace) => HandlerView { app: namespace_stepped(s.app, false), ..s },
        ScreenEvents::Form(FormScreenEvent::NextField) => HandlerView { ui: UiView { form: moved(s.ui.form, 1), ..s.ui }, ..s },
        ScreenEvents::Form(FormScreenEvent::PreviousField) => HandlerView { ui: UiView { form: moved(s.ui.form, 4), ..s.ui }, ..s },
        ScreenEvents::Form(FormScreenEvent::Input(k)) => HandlerView { ui: UiView { form: typed_in(s.ui.form, k), ..s.ui }, ..s },
    }
}

/// What an event does to the interface, and what has to be done outside.
pub open spec fn step(s: HandlerView, e: AppEvents) -> (HandlerView, EffectView) {
    match e {
        AppEvents::Run(c) => run_step(s, c),
        AppEvents::Render(r) => (render_step(s, r), EffectView::Done),
        AppEvents::Quit => (HandlerView { quit: true, ..s }, EffectView::Quit),
        AppEvents::Popup(p) => popup_step(s, p),
        AppEvents::QueryBox(q) => (querybox_step(s, q), EffectView::Done),
        AppEvents::Screen(x) => (screen_step(s, x), EffectView::Done),
    }
}

/// What follows a write of the commands, by what it was for and whether it
/// failed with a message.
pub open spec fn save_finished(s: HandlerView, p: Pending, outcome: Result<(), Seq<char>>) -> HandlerView {
    match (p, outcome) {
        (Pending::Inserted, Ok(_)) => HandlerView { app: reloaded(s.app), ui: back_to_main(s.ui), ..s },
        (Pending::Edited, Ok(_)) => HandlerView { ui: with_mode(s.ui, ViewMode::Main), ..s },
        (Pending::Deleted, Ok(_)) => HandlerView {
            app: reloaded(s.app),
            ui: with_popup_shown(popup_cleared(s.ui), false),
            ..s
        },
        (Pending::Deleted, Err(m)) => HandlerView { ui: with_popup_shown(shown_error(s.ui, m), false), ..s },
        (_, Err(m)) => HandlerView { ui: shown_error(s.ui, m), ..s },
    }
}

/// An outcome taken by view.
pub open spec fn outcome_view(o: Result<(), String>) -> Result<(), Seq<char>> {
    match o {
        Ok(_) => Ok(()),
        Err(m) => Err(m@),
    }
}

/// A new command that is refused, because it is invalid or its alias and
/// namespace are stored, leaves the stored commands as they were and is
/// answered with an error popup carrying the reason.
pub proof fn law_refused_insert(s: HandlerView)
    requires
        validation(built_command(s.ui.form)) is Err || has_key(s.app.list, built_command(s.ui.form)),
    ensures
        step(s, AppEvents::Run(CommandEvents::Insert)).0.app == s.app,
        step(s, AppEvents::Run(CommandEvents::Insert)).1 == EffectView::Done,
        step(s, AppEvents::Run(CommandEvents::Insert)).0.ui.ui.show_popup,
        step(s, AppEvents::Run(CommandEvents::Insert)).0.ui.popup == Some(error_popup(
            match validation(built_command(s.ui.form)) {
                Err(e) => e.message(),
                Ok(_) => exists_message(built_command(s.ui.form)),
            },
        )),
{
}

/// A new command that is accepted is written after the stored ones, and
/// once the write succeeds the main screen shows every stored command,
/// the new one among them.
pub proof fn law_saved_insert_is_shown(s: HandlerView)
    requires
        validation(built_command(s.ui.form)) is Ok,
        !has_key(s.app.list, built_command(s.ui.form)),
    ensures
        step(s, AppEvents::Run(CommandEvents::Insert)).1 == EffectView::Save(
            s.app.list.push(built_command(s.ui.form)),
            Pending::Inserted,
        ),
        save_finished(step(s, AppEvents::Run(CommandEvents::Insert)).0, Pending::Inserted, Ok(())).app.shown
            == s.app.list.push(built_command(s.ui.form)),
        save_finished(step(s, AppEvents::Run(CommandEvents::Insert)).0, Pending::Inserted, Ok(())).app.shown.contains(
            built_command(s.ui.form),
        ),
        save_finished(step(s, AppEvents::Run(CommandEvents::Insert)).0, Pending::Inserted, Ok(())).ui.ui.view_mode
            == ViewMode::Main,
{
    let c = built_command(s.ui.form);
    let list = s.app.list.push(c);
    assert(list[list.len() - 1] == c);
}

/// A delete confirmed in its popup writes the stored commands without any
/// command of the alias and namespace of the command selected, keeping
/// every other one.
pub proof fn law_confirmed_delete(s: HandlerView)
    requires
        selected_choice(s.ui) == Some(Answer::Okay),
        s.ui.popup matches Some(p) && p.callback == PopupCallbackAction::DeleteCommand,
        s.ui.form.command is Some,
    ensures
        step(s, AppEvents::Popup(PopupEvent::Answer)).1 == EffectView::Save(
            without_key(s.app.list, s.ui.form.command->0),
            Pending::Deleted,
        ),
        !has_key(without_key(s.app.list, s.ui.form.command->0), s.ui.form.command->0),
        forall|x: CommandView| s.app.list.contains(x) && !same_key(x, s.ui.form.command->0)
            ==> without_key(s.app.list, s.ui.form.command->0).contains(x),
{
    law_remove_drops_only_key(s.app.list, s.ui.form.command->0);
}

/// Cancelling a popup closes it and changes nothing else shown or stored.
pub proof fn law_cancel_closes_popup(s: HandlerView)
    requires
        selected_choice(s.ui) == Some(Answer::Cancel),
    ensures
        step(s, AppEvents::Popup(PopupEvent::Answer)).0 == (HandlerView {
            ui: with_popup_shown(popup_cleared(s.ui), false),
            ..s
        }),
        step(s, AppEvents::Popup(PopupEvent::Answer)).1 == EffectView::Done,
{
}

/// Leaving a form with unsaved changes asks first, and changes nothing else.
pub proof fn law_unsaved_form_asks(s: HandlerView)
    requires
        modified(s.ui.form.original, s.ui.form.edited),
    ensures
        step(s, AppEvents::Render(RenderEvents::Main)).0.app == s.app,
        step(s, AppEvents::Render(RenderEvents::Main)).0.ui.ui.view_mode == s.ui.ui.view_mode,
        step(s, AppEvents::Render(RenderEvents::Main)).0.ui.form == s.ui.form,
        step(s, AppEvents::Render(RenderEvents::Main)).0.ui.ui.show_popup,
        step(s, AppEvents::Render(RenderEvents::Main)).0.ui.popup == Some(warning(
            unsaved_message(),
            PopupCallbackAction::Render(RenderEvents::Main),
        )),
{
}

/// The interface: the main screen's data, what is shown and edited, and
/// whether it stops.
pub struct EventHandler {
    pub app_context: ApplicationContext,
    pub ui_context: UIContext,
    pub should_quit: bool,
}

impl View for EventHandler {
    type V = HandlerView;

    open spec fn view(&self) -> HandlerView {
        HandlerView { app: self.app_context@, ui: self.ui_context@, quit: self.should_quit }
    }
}

impl EventHandler {
    /// Both contexts keep their invariants.
    pub open spec fn well_formed(&self) -> bool {
        self.app_context.well_formed() && self.ui_context.well_formed()
    }

    /// The interface over the given contexts, running.
    pub fn init(app_context: ApplicationContext, ui_context: UIContext) -> (r: EventHandler)
        ensures
            r@ == (HandlerView { app: app_context@, ui: ui_context@, quit: false }),
            r.well_formed() == (app_context.well_formed() && ui_context.well_formed()),
    {
        EventHandler { app_context, ui_context, should_quit: false }
    }

    /// The interface stops.
    pub fn quit(&mut self)
        ensures
            final(self)@ == (HandlerView { quit: true, ..old(self)@ }),
            final(self).well_formed() == old(self).well_formed(),
    {
        self.should_quit = true;
    }

    /// Handles an event: changes the interface and says what has to be done
    /// outside.
    pub fn handle(&mut self, message: AppEvents) -> (r: Effect)
        requires
            old(self).well_formed(),
            admissible(old(self)@, message),
        ensures
            final(self).well_formed(),
            (final(self)@, effect_view(r)) == step(old(self)@, message),
    {
        match message {
            AppEvents::Run(c) => self.handle_run(c),
            AppEvents::Render(r) => {
                self.handle_render(r);
                Effect::Done
            },
            AppEvents::Quit => {
                self.quit();
                Effect::Quit
            },
            AppEvents::Popup(p) => self.handle_popup(p),
            AppEvents::QueryBox(q) => {
                self.handle_querybox(q);
                Effect::Done
            },
            AppEvents::Screen(x) => {
                self.handle_screen(x);
                Effect::Done
            },
        }
    }

    /// Shows an error popup.
    fn show_error(&mut self, message: String)
        ensures
            final(self)@ == (HandlerView { ui: shown_error(old(self)@.ui, message@), ..old(self)@ }),
            final(self).well_formed() == old(self).well_formed(),
    {
        self.ui_context.set_show_popup(true);
        self.ui_context.set_error_popup(message);
    }

    /// Handles a command event.
    fn handle_run(&mut self, e: CommandEvents) -> (r: Effect)
        requires
            old(self).well_formed(),
            admissible(old(self)@, AppEvents::Run(e)),
        ensures
            final(self).well_formed(),
            (final(self)@, effect_view(r)) == run_step(old(self)@, e),
    {
        match e {
            CommandEvents::Execute => {
                match self.ui_context.get_selected_command() {
                    Some(command) => self.app_context.set_current_command_as_callback(command),
                    None => {},
                }
                self.quit();
                Effect::Quit
            },
            CommandEvents::Insert => {
                let command = self.ui_context.build_new_command();
                match self.app_context.add_command(command) {
                    Ok(commands) => Effect::Save { commands, then: Pending::Inserted },
                    Err(error) => {
                        self.show_error(error.to_string());
                        Effect::Done
                    },
                }
            },
            CommandEvents::Edit => {
                let edited_command = self.ui_context.edit_command();
                let current = match self.ui_context.get_selected_command() {
                    Some(c) => c.clone(),
                    None => edited_command.clone(),
                };
                match self.app_context.add_edited_command(edited_command, &current) {
                    Ok(commands) => Effect::Save { commands, then: Pending::Edited },
                    Err(error) => {
                        self.show_error(error.to_string());
                        Effect::Done
                    },
                }
            },
            CommandEvents::Copy => match self.ui_context.get_selected_command() {
                Some(command) => Effect::Copy(own(command.command.as_str())),
                None => Effect::Done,
            },
        }
    }

    /// Handles a request to show a screen.
    fn handle_render(&mut self, e: RenderEvents)
        requires
            old(self).well_formed(),
        ensures
            final(self).well_formed(),
            final(self)@ == render_step(old(self)@, e),
    {
        match e {
            RenderEvents::Main => {
                if self.ui_context.is_form_modified() {
                    self.ui_context.set_dialog_popup(
                        own("Wait, you didn't save your changes! Are you sure you want to quit?"),
                        PopupCallbackAction::Render(RenderEvents::Main),
                    );
                    self.ui_context.set_show_popup(true);
                } else {
                    self.ui_context.set_view_mode(ViewMode::Main);
                    self.app_context.reload_contexts();
                    self.ui_context.reset_form_field_selected_field();
                }
            },
            RenderEvents::Edit => {
                self.ui_context.set_view_mode(ViewMode::Edit);
                if self.ui_context.get_selected_command().is_some() {
                    self.ui_context.order_fields();
                    self.ui_context.reset_form_field_selected_field();
                    self.ui_context.clear_form_fields();
                    self.ui_context.set_selected_command_input();
                }
            },
            RenderEvents::Insert => {
                self.ui_context.order_fields();
                self.ui_context.set_view_mode(ViewMode::Insert);
                self.ui_context.reset_form_field_selected_field();
                self.ui_context.clear_form_fields();
            },
        }
    }

    /// Handles a popup event.
    fn handle_popup(&mut self, e: PopupEvent) -> (r: Effect)
        requires
            old(self).well_formed(),
            admissible(old(self)@, AppEvents::Popup(e)),
        ensures
            final(self).well_formed(),
            (final(self)@, effect_view(r)) == popup_step(old(self)@, e),
    {
        match e {
            PopupEvent::Enable(popup_type) => {
                match popup_type {
                    PopupType::Help => {
                        self.ui_context.set_show_help(true);
                    },
                    PopupType::Dialog { message, callback_action } => {
                        self.ui_context.set_show_popup(true);
                        self.ui_context.set_dialog_popup(message, callback_action);
                    },
                }
                Effect::Done
            },
            PopupEvent::Answer => self.handle_answer(),
            PopupEvent::Disable => {
                if self.ui_context.show_help() {
                    self.ui_context.set_show_help(false);
                } else {
                    self.ui_context.clear_popup_context();
                    self.ui_context.set_show_popup(false);
                }
                Effect::Done
            },
            PopupEvent::NextChoice => {
                self.ui_context.next_choice();
                Effect::Done
            },
            PopupEvent::PreviousChoice => {
                self.ui_context.previous_choice();
                Effect::Done
            },
        }
    }

    /// Handles the answer to the popup.
    fn handle_answer(&mut self) -> (r: Effect)
        requires
            old(self).well_formed(),
            admissible(old(self)@, AppEvents::Popup(PopupEvent::Answer)),
        ensures
            final(self).well_formed(),
            (final(self)@, effect_view(r)) == answer_step(old(self)@),
    {
        match self.ui_context.get_selected_choice() {
            Some(Answer::Okay) => {
                let callback = match self.ui_context.popup() {
                    Some(popup) => popup.callback(),
                    None => PopupCallbackAction::NoAction,
                };
                match callback {
                    PopupCallbackAction::DeleteCommand => {
                        let selected = match self.ui_context.get_selected_command() {
                            Some(c) => Some(c.clone()),
                            None => None,
                        };
                        if let Some(command) = selected {
                            match self.app_context.delete_selected_command(&command) {
                                Ok(commands) => {
                                    return Effect::Save { commands, then: Pending::Deleted };
                                },
                                Err(error) => {
                                    self.show_error(error.to_string());
                                },
                            }
                        }
                    },
                    PopupCallbackAction::Render(RenderEvents::Main) => {
                        self.ui_context.set_view_mode(ViewMode::Main);
                        self.app_context.reload_contexts();
                        self.ui_context.reset_form_field_selected_field();
                        self.ui_context.clear_popup_context();
                        self.ui_context.set_show_popup(false);
                    },
                    _ => {
                        self.ui_context.clear_popup_context();
                        self.ui_context.set_show_popup(false);
                    },
                }
            },
            Some(Answer::Cancel) => {
                self.ui_context.clear_popup_context();
            },
            None => {},
        }
        self.ui_context.set_show_popup(false);
        Effect::Done
    }

    /// Handles a query box event.
    fn handle_querybox(&mut self, e: QueryboxEvent)
        requires
            old(self).well_formed(),
        ensures
            final(self).well_formed(),
            final(self)@ == querybox_step(old(self)@, e),
    {
        match e {
            QueryboxEvent::Active => {
                self.ui_context.activate_focus();
                self.ui_context.set_querybox_focus(true);
            },
            QueryboxEvent::Deactive => {
                self.ui_context.deactivate_focus();
                self.ui_context.set_querybox_focus(false);
            },
            QueryboxEvent::Input(k) => {
                self.ui_context.handle_querybox_input(k);
            },
        }
    }

    /// Handles a screen event.
    fn handle_screen(&mut self, e: ScreenEvents)
        requires
            old(self).well_formed(),
            admissible(old(self)@, AppEvents::Screen(e)),
        ensures
            final(self).well_formed(),
            final(self)@ == screen_step(old(self)@, e),
    {
        match e {
            ScreenEvents::Main(m) => match m {
                MainScreenEvent::NextCommand => self.app_context.next_command(),
                MainScreenEvent::PreviousCommand => self.app_context.previous_command(),
                MainScreenEvent::NextNamespace => self.app_context.next_namespace(),
                MainScreenEvent::PreviousNamespace => self.app_context.previous_namespace(),
            },
            ScreenEvents::Form(f) => match f {
                FormScreenEvent::NextField => self.ui_context.next_form_field(),
                FormScreenEvent::PreviousField => self.ui_context.previous_form_field(),
                FormScreenEvent::Input(k) => self.ui_context.handle_form_input(k),
            },
        }
    }

    /// Finishes what a write of the commands was for, by its outcome.
    pub fn finish_save(&mut self, pending: Pending, outcome: Result<(), String>)
        requires
            old(self).well_formed(),
        ensures
            final(self).well_formed(),
            final(self)@ == save_finished(old(self)@, pending, outcome_view(outcome)),
    {
        match outcome {
            Ok(()) => match pending {
                Pending::Inserted => {
                    self.ui_context.set_view_mode(ViewMode::Main);
                    self.app_context.reload_contexts();
                    self.ui_context.reset_form_field_selected_field();
                },
                Pending::Edited => {
                    self.ui_context.set_view_mode(ViewMode::Main);
                },
                Pending::Deleted => {
                    self.ui_context.clear_popup_context();
                    self.app_context.reload_contexts();
                    self.ui_context.set_show_popup(false);
                },
            },
            Err(message) => {
                self.show_error(message);
                if pending == Pending::Deleted {
                    self.ui_context.set_show_popup(false);
                }
            },
        }
    }

    /// Shows the error of a failed copy.
    pub fn finish_copy(&mut self, outcome: Result<(), String>)
        ensures
            final(self)@ == (match outcome {
                Ok(_) => old(self)@,
                Err(m) => HandlerView { ui: shown_error(old(self)@.ui, m@), ..old(self)@ },
            }),
            final(self).well_formed() == old(self).well_formed(),
    {
        if let Err(message) = outcome {
            self.show_error(message);
        }
    }
}

} // verus!
