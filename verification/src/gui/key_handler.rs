//! What each key does to the interface's state, screen by screen.
//!
//! A key may ask for the stored commands to be written; the caller writes
//! them and, when that succeeds, calls `after_save` with what follows.
use vstd::prelude::*;
use crate::command::{validation, Command, CommandError, CommandView};
use crate::commands::{edit_conflicts, has_key, views, without_key, CommandsError};
use crate::gui::entities::context::{
    apply_fields, blank_command, cleared_fields, edited, shown_field, toggled, Context, FieldEdit,
};
use crate::gui::entities::field::{
    backspaced, backward, can_backspace, can_delete, can_type, deleted, forward, typed, FieldView,
};
use crate::gui::entities::popup::{
    cleared_popup, delete_question, next_answer, previous_answer, Answer, MessageType, PopUpView,
};
use crate::gui::entities::state::{
    filtered, reloaded, step_after, step_before, well_formed, with_next_command,
    with_next_namespace, with_previous_command, with_previous_namespace, State, StateView,
};
use crate::gui::entities::states::ui_state::ViewMode;

verus! {

/// A key of the keyboard.
#[derive(Clone, Copy, Debug, PartialEq, Eq, Structural)]
pub enum KeyCode {
    Char(char),
    Esc,
    Tab,
    BackTab,
    Backspace,
    Enter,
    Left,
    Right,
    Up,
    Down,
    Insert,
    Delete,
    F(u8),
    Other,
}

/// The modifiers held with a key: none, shift alone, or anything else.
#[derive(Clone, Copy, Debug, PartialEq, Eq, Structural)]
pub enum KeyModifiers {
    Plain,
    Shift,
    Other,
}

/// A key press.
#[derive(Clone, Copy, Debug, PartialEq, Eq, Structural)]
pub struct KeyEvent {
    pub code: KeyCode,
    pub modifiers: KeyModifiers,
}

/// What follows a successful write of the commands.
#[derive(Clone, Copy, Debug, PartialEq, Eq, Structural)]
pub enum AfterSave {
    /// Reload and go back to the main screen.
    BackToMain,
    /// Close the popup and reload.
    PopupCleared,
}

/// What a key asks of the caller.
#[derive(Debug)]
pub enum KeyOutcome {
    /// Nothing.
    Done,
    /// Write these commands; on success, call `after_save` with `after`.
    Save { commands: Vec<Command>, after: AfterSave },
}

/// A `KeyOutcome` taken by view.
pub enum OutcomeView {
    Done,
    Save(Seq<CommandView>, AfterSave),
}

/// A `KeyOutcome` taken by view.
pub open spec fn outcome_view(o: KeyOutcome) -> OutcomeView {
    match o {
        KeyOutcome::Done => OutcomeView::Done,
        KeyOutcome::Save { commands, after } => OutcomeView::Save(views(commands@), after),
    }
}

/// Whether the key is pressed without modifiers.
pub open spec fn plain(k: KeyEvent) -> bool {
    k.modifiers == KeyModifiers::Plain
}

/// Whether the key is pressed without modifiers or with shift alone.
pub open spec fn plain_or_shift(k: KeyEvent) -> bool {
    k.modifiers == KeyModifiers::Plain || k.modifiers == KeyModifiers::Shift
}

/// Whether the key is `code` pressed without modifiers.
pub open spec fn is_plain(k: KeyEvent, code: KeyCode) -> bool {
    plain(k) && k.code == code
}

/// The state with an error shown in the popup.
pub open spec fn with_error(s: StateView, message: Seq<char>) -> StateView {
    StateView {
        popup: PopUpView { message_type: MessageType::Error, message, show_popup: true, ..s.popup },
        ..s
    }
}

/// The message of a command that already exists.
pub open spec fn already_exists_message(c: CommandView) -> Seq<char> {
    "Command with alias \""@ + c.alias + "\" already exists in \""@ + c.namespace
        + "\" namespace"@
}

/// Whether the form holds no command to act on: the alias, the namespace
/// and the command are all empty.
pub open spec fn blank(c: CommandView) -> bool {
    c.alias.len() == 0 && c.namespace.len() == 0 && c.command.len() == 0
}

/// The position of the field in focus.
pub open spec fn focus_of(s: StateView) -> int {
    s.focus->0 as int
}

/// The state after an edit of the field in focus.
pub open spec fn with_field_edit(s: StateView, e: FieldEdit) -> StateView {
    StateView { fields: s.fields.update(focus_of(s), edited(s.fields[focus_of(s)], e)), ..s }
}

/// The state after moving the focus from the field in focus to `j`.
pub open spec fn with_focus_moved(s: StateView, j: int) -> StateView {
    StateView { focus: Some(j as usize), fields: Context::refocused(s.fields, focus_of(s), j), ..s }
}

/// What a key does while the query box has the focus.
pub open spec fn query_key(s: StateView, k: KeyEvent) -> StateView {
    let q = s.query_box;
    match k.code {
        KeyCode::Char(c) => if plain_or_shift(k) {
            reloaded(StateView { query_box: typed(q, c), ..s })
        } else {
            s
        },
        KeyCode::Backspace => if plain(k) {
            reloaded(StateView { query_box: backspaced(q), ..s })
        } else {
            s
        },
        KeyCode::Delete => if plain(k) {
            reloaded(StateView { query_box: deleted(q), ..s })
        } else {
            s
        },
        KeyCode::Left => if plain(k) {
            StateView { query_box: backward(q), ..s }
        } else {
            s
        },
        KeyCode::Right => if plain(k) {
            StateView { query_box: forward(q), ..s }
        } else {
            s
        },
        KeyCode::Esc | KeyCode::Enter | KeyCode::Down | KeyCode::Up => if plain(k) {
            StateView { query_box: toggled(q), ..s }
        } else {
            s
        },
        _ => s,
    }
}

/// What a key does on the main screen.
pub open spec fn main_key(s: StateView, k: KeyEvent) -> StateView {
    let c = k.code;
    let acts = s.current_command matches Some(cc) && !blank(cc);
    if plain(k) {
        if c == KeyCode::Char('f') {
            StateView { query_box: toggled(s.query_box), ..s }
        } else if c == KeyCode::Char('q') {
            StateView { should_quit: true, ..s }
        } else if c == KeyCode::Left || c == KeyCode::Char('h') {
            with_previous_namespace(s)
        } else if c == KeyCode::Right || c == KeyCode::Char('l') || c == KeyCode::Tab {
            with_next_namespace(s)
        } else if c == KeyCode::Down || c == KeyCode::Char('k') {
            with_next_command(s)
        } else if c == KeyCode::Up || c == KeyCode::Char('j') {
            with_previous_command(s)
        } else if c == KeyCode::Insert || c == KeyCode::Char('i') {
            StateView { view_mode: ViewMode::Insert, ..s }
        } else if c == KeyCode::Char('e') {
            if acts {
                StateView {
                    view_mode: ViewMode::Edit,
                    fields: s.fields.map_values(|f: FieldView| shown_field(s.current_command->0, f)),
                    ..s
                }
            } else {
                s
            }
        } else if c == KeyCode::Char('d') || c == KeyCode::Delete {
            if acts {
                StateView {
                    popup: PopUpView {
                        message: delete_question(),
                        show_popup: true,
                        message_type: MessageType::Delete,
                        ..s.popup
                    },
                    ..s
                }
            } else {
                s
            }
        } else if c == KeyCode::Enter {
            if acts {
                let i = s.commands_selected->0 as int;
                StateView {
                    to_be_executed: if i < filtered(s).len() {
                        Some(filtered(s)[i])
                    } else {
                        None
                    },
                    should_quit: true,
                    ..s
                }
            } else {
                s
            }
        } else if c == KeyCode::F(1) || c == KeyCode::Char('?') {
            StateView { show_help: true, ..s }
        } else {
            s
        }
    } else if k.modifiers == KeyModifiers::Shift && c == KeyCode::BackTab {
        with_previous_namespace(s)
    } else {
        s
    }
}

/// What Enter does on the insert screen: the command built from the form
/// is added and written, or its error is shown.
pub open spec fn insert_submit(s: StateView) -> (StateView, OutcomeView) {
    let built = apply_fields(blank_command(), s.fields, false);
    match validation(built) {
        Ok(()) => if has_key(s.commands, built) {
            (with_error(StateView { fields: cleared_fields(s.fields), ..s }, already_exists_message(built)), OutcomeView::Done)
        } else {
            let list = s.commands.push(built);
            (
                StateView { commands: list, fields: cleared_fields(s.fields), ..s },
                OutcomeView::Save(list, AfterSave::BackToMain),
            )
        },
        Err(e) => (with_error(s, e.message()), OutcomeView::Done),
    }
}

/// What Enter does on the edit screen: the edited command replaces the
/// one edited and is written, or its error is shown.
pub open spec fn edit_submit(s: StateView) -> (StateView, OutcomeView) {
    let current = s.current_command->0;
    let e = apply_fields(current, s.fields, true);
    match validation(e) {
        Ok(()) => if edit_conflicts(s.commands, e, current) {
            (with_error(StateView { fields: cleared_fields(s.fields), ..s }, already_exists_message(e)), OutcomeView::Done)
        } else {
            let list = without_key(s.commands, current).push(e);
            (
                StateView { commands: list, fields: cleared_fields(s.fields), ..s },
                OutcomeView::Save(list, AfterSave::BackToMain),
            )
        },
        Err(err) => (with_error(s, err.message()), OutcomeView::Done),
    }
}

/// What a key does on the insert or the edit screen.
pub open spec fn form_key(s: StateView, k: KeyEvent, editing: bool) -> (StateView, OutcomeView) {
    let c = k.code;
    let n = s.fields.len() as int;
    let i = focus_of(s);
    if plain(k) {
        if c == KeyCode::Esc {
            (StateView { fields: cleared_fields(s.fields), view_mode: ViewMode::Main, ..s }, OutcomeView::Done)
        } else if c == KeyCode::Tab {
            (with_focus_moved(s, step_after(i, n)), OutcomeView::Done)
        } else if c is Char {
            (with_field_edit(s, FieldEdit::Type(c->Char_0)), OutcomeView::Done)
        } else if c == KeyCode::Backspace {
            (with_field_edit(s, FieldEdit::Backspace), OutcomeView::Done)
        } else if c == KeyCode::Left {
            (with_field_edit(s, FieldEdit::Left), OutcomeView::Done)
        } else if c == KeyCode::Right {
            (with_field_edit(s, FieldEdit::Right), OutcomeView::Done)
        } else if c == KeyCode::Delete {
            (with_field_edit(s, FieldEdit::Delete), OutcomeView::Done)
        } else if c == KeyCode::Enter {
            if editing {
                edit_submit(s)
            } else {
                insert_submit(s)
            }
        } else if c == KeyCode::F(1) {
            (StateView { show_help: true, ..s }, OutcomeView::Done)
        } else {
            (s, OutcomeView::Done)
        }
    } else if k.modifiers == KeyModifiers::Shift {
        if c == KeyCode::BackTab {
            (with_focus_moved(s, step_before(i, n)), OutcomeView::Done)
        } else if c is Char {
            (with_field_edit(s, FieldEdit::Type(c->Char_0)), OutcomeView::Done)
        } else {
            (s, OutcomeView::Done)
        }
    } else {
        (s, OutcomeView::Done)
    }
}

/// What a key does while the popup is shown.
pub open spec fn popup_key(s: StateView, k: KeyEvent) -> (StateView, OutcomeView) {
    let cleared = StateView { popup: cleared_popup(s.popup.options), ..s };
    match s.popup.message_type {
        MessageType::Error => if is_plain(k, KeyCode::Enter) {
            (cleared, OutcomeView::Done)
        } else {
            (s, OutcomeView::Done)
        },
        MessageType::Delete => if is_plain(k, KeyCode::Right) {
            (StateView { popup: next_answer(s.popup), ..s }, OutcomeView::Done)
        } else if is_plain(k, KeyCode::Left) {
            (StateView { popup: previous_answer(s.popup), ..s }, OutcomeView::Done)
        } else if is_plain(k, KeyCode::Enter) {
            match s.popup.options[s.popup.selected->0 as int] {
                Answer::Okay => {
                    let list = without_key(s.commands, s.current_command->0);
                    (StateView { commands: list, ..s }, OutcomeView::Save(list, AfterSave::PopupCleared))
                },
                Answer::Cancel => (cleared, OutcomeView::Done),
                Answer::NoAnswer => (s, OutcomeView::Done),
            }
        } else if is_plain(k, KeyCode::Esc) || is_plain(k, KeyCode::Char('q')) {
            (cleared, OutcomeView::Done)
        } else {
            (s, OutcomeView::Done)
        },
        MessageType::NoMessage => (s, OutcomeView::Done),
    }
}

/// What a key does: the popup first, then the help, then the screen.
pub open spec fn key_step(s: StateView, k: KeyEvent) -> (StateView, OutcomeView) {
    if s.popup.show_popup {
        popup_key(s, k)
    } else if s.show_help {
        (StateView { show_help: false, ..s }, OutcomeView::Done)
    } else {
        match s.view_mode {
            ViewMode::Main => if s.query_box.in_focus {
                (query_key(s, k), OutcomeView::Done)
            } else {
                (main_key(s, k), OutcomeView::Done)
            },
            ViewMode::Insert => form_key(s, k, false),
            ViewMode::Edit => form_key(s, k, true),
        }
    }
}

/// Whether an edit key cannot be applied to the field: the text around the
/// cursor is not split at a character there.
pub open spec fn edit_refused(f: FieldView, k: KeyEvent) -> bool {
    ||| (k.code is Char && plain_or_shift(k) && !can_type(f))
    ||| (is_plain(k, KeyCode::Backspace) && !can_backspace(f))
    ||| (is_plain(k, KeyCode::Delete) && !can_delete(f))
}

/// The keys the interface cannot take in a state: an edit the field in
/// focus cannot take, or a key that acts on the command in the form when
/// there is none.
pub open spec fn key_refused(s: StateView, k: KeyEvent) -> bool {
    if s.popup.show_popup {
        s.popup.message_type == MessageType::Delete && is_plain(k, KeyCode::Enter)
            && s.popup.options[s.popup.selected->0 as int] == Answer::Okay && s.current_command is None
    } else if s.show_help {
        false
    } else {
        match s.view_mode {
            ViewMode::Main => if s.query_box.in_focus {
                edit_refused(s.query_box, k)
            } else {
                plain(k) && (k.code == KeyCode::Char('e') || k.code == KeyCode::Char('d') || k.code
                    == KeyCode::Delete || k.code == KeyCode::Enter) && s.current_command is None
            },
            ViewMode::Insert => edit_refused(s.fields[focus_of(s)], k),
            ViewMode::Edit => edit_refused(s.fields[focus_of(s)], k) || (is_plain(k, KeyCode::Enter)
                && s.current_command is None),
        }
    }
}

/// What follows a successful write.
pub open spec fn saved(s: StateView, after: AfterSave) -> StateView {
    match after {
        AfterSave::BackToMain => StateView { view_mode: ViewMode::Main, ..reloaded(s) },
        AfterSave::PopupCleared => reloaded(StateView { popup: cleared_popup(s.popup.options), ..s }),
    }
}

/// Whether the key is pressed without modifiers.
fn is_plain_key(k: KeyEvent) -> (r: bool)
    ensures
        r == plain(k),
{
    k.modifiers == KeyModifiers::Plain
}

/// Whether an edit key cannot be applied to the field.
fn edit_refused_exec(f: &crate::gui::entities::field::Field, k: KeyEvent) -> (r: bool)
    ensures
        r == edit_refused(f@, k),
{
    let p = is_plain_key(k);
    match k.code {
        KeyCode::Char(_) => (p || k.modifiers == KeyModifiers::Shift) && !f.can_type(),
        KeyCode::Backspace => p && !f.can_backspace(),
        KeyCode::Delete => p && !f.can_delete(),
        _ => false,
    }
}

/// Whether the interface can take the key in this state.
pub fn can_handle(state: &State, key: KeyEvent) -> (r: bool)
    requires
        well_formed(state@),
    ensures
        r == !key_refused(state@, key),
{
    let no_current = state.field_context.get_current_command().is_none();
    if state.popup.show_popup {
        if state.popup.message_type == MessageType::Delete && key.code == KeyCode::Enter && is_plain_key(key) {
            let sel = state.popup.options_state.selected().unwrap();
            !(state.popup.options[sel] == Answer::Okay && no_current)
        } else {
            true
        }
    } else if state.show_help {
        true
    } else {
        match state.view_mode {
            ViewMode::Main => if state.query_box.in_focus() {
                !edit_refused_exec(&state.query_box, key)
            } else {
                !(is_plain_key(key) && (key.code == KeyCode::Char('e') || key.code == KeyCode::Char('d')
                    || key.code == KeyCode::Delete || key.code == KeyCode::Enter) && no_current)
            },
            ViewMode::Insert => {
                let f = state.field_context.get_current_in_focus().unwrap();
                !edit_refused_exec(f, key)
            },
            ViewMode::Edit => {
                let f = state.field_context.get_current_in_focus().unwrap();
                !(edit_refused_exec(f, key) || (key.code == KeyCode::Enter && is_plain_key(key) && no_current))
            },
        }
    }
}

/// Closes the help.
pub fn handle_help(state: &mut State)
    ensures
        final(state)@ == (StateView { show_help: false, ..old(state)@ }),
{
    state.show_help = false;
}

/// Handles a key while the query box has the focus.
pub fn handle_query_box(key: KeyEvent, state: &mut State)
    requires
        well_formed(old(state)@),
        !edit_refused(old(state)@.query_box, key),
    ensures
        final(state)@ == query_key(old(state)@, key),
{
    let p = is_plain_key(key);
    match key.code {
        KeyCode::Char(c) => if p || key.modifiers == KeyModifiers::Shift {
            state.query_box.on_char(c);
            state.reload_state();
        },
        KeyCode::Backspace => if p {
            state.query_box.on_backspace();
            state.reload_state();
        },
        KeyCode::Delete => if p {
            state.query_box.on_delete_key();
            state.reload_state();
        },
        KeyCode::Left => if p {
            state.query_box.move_cursor_backward();
        },
        KeyCode::Right => if p {
            state.query_box.move_cursor_foward();
        },
        KeyCode::Esc | KeyCode::Enter | KeyCode::Down | KeyCode::Up => if p {
            state.query_box.toggle_focus();
        },
        _ => {},
    }
}

/// Whether the form holds a command to act on.
fn acts_on_current(state: &State) -> (r: bool)
    ensures
        r == (state@.current_command matches Some(cc) && !blank(cc)),
{
    match state.field_context.get_current_command() {
        Some(c) => !(c.alias.as_str().is_empty() && c.namespace.as_str().is_empty()
            && c.command.as_str().is_empty()),
        None => false,
    }
}

/// Handles a key on the main screen.
pub fn handle_main(key: KeyEvent, state: &mut State) -> (r: KeyOutcome)
    requires
        old(state)@.view_mode == ViewMode::Main,
        well_formed(old(state)@),
        !key_refused(old(state)@, key),
    ensures
        (final(state)@, outcome_view(r)) == key_step(old(state)@, key),
{
    if state.popup.show_popup {
        return handle_popup(key, state);
    } else if state.show_help {
        handle_help(state);
    } else if state.query_box.in_focus() {
        handle_query_box(key, state);
    } else {
        let c = key.code;
        if is_plain_key(key) {
            if c == KeyCode::Char('f') {
                state.query_box.toggle_focus();
            } else if c == KeyCode::Char('q') {
                state.should_quit = true;
            } else if c == KeyCode::Left || c == KeyCode::Char('h') {
                state.previous_namespace();
            } else if c == KeyCode::Right || c == KeyCode::Char('l') || c == KeyCode::Tab {
                state.next_namespace();
            } else if c == KeyCode::Down || c == KeyCode::Char('k') {
                state.next_command();
            } else if c == KeyCode::Up || c == KeyCode::Char('j') {
                state.previous_command();
            } else if c == KeyCode::Insert || c == KeyCode::Char('i') {
                state.view_mode = ViewMode::Insert;
            } else if c == KeyCode::Char('e') {
                if acts_on_current(state) {
                    state.view_mode = ViewMode::Edit;
                    state.field_context.set_selected_command_input();
                }
            } else if c == KeyCode::Char('d') || c == KeyCode::Delete {
                if acts_on_current(state) {
                    state.popup.ask_delete();
                }
            } else if c == KeyCode::Enter {
                if acts_on_current(state) {
                    let shown = state.filter_commands();
                    let i = state.commands_state.selected().unwrap();
                    state.to_be_executed = if i < shown.len() {
                        Some(shown[i].clone())
                    } else {
                        None
                    };
                    state.should_quit = true;
                }
            } else if c == KeyCode::F(1) || c == KeyCode::Char('?') {
                state.show_help = true;
            }
        } else if key.modifiers == KeyModifiers::Shift && c == KeyCode::BackTab {
            state.previous_namespace();
        }
    }
    KeyOutcome::Done
}

/// Handles the keys the insert and edit screens share; Enter is left to
/// the caller.
fn handle_form_key(key: KeyEvent, state: &mut State)
    requires
        well_formed(old(state)@),
        !edit_refused(old(state)@.fields[focus_of(old(state)@)], key),
        !is_plain(key, KeyCode::Enter),
    ensures
        (final(state)@, OutcomeView::Done) == form_key(old(state)@, key, false),
        (final(state)@, OutcomeView::Done) == form_key(old(state)@, key, true),
{
    let c = key.code;
    if is_plain_key(key) {
        if c == KeyCode::Esc {
            state.field_context.clear_inputs();
            state.view_mode = ViewMode::Main;
        } else if c == KeyCode::Tab {
            state.field_context.next();
        } else if let KeyCode::Char(ch) = c {
            state.field_context.edit_in_focus(FieldEdit::Type(ch));
        } else if c == KeyCode::Backspace {
            state.field_context.edit_in_focus(FieldEdit::Backspace);
        } else if c == KeyCode::Left {
            state.field_context.edit_in_focus(FieldEdit::Left);
        } else if c == KeyCode::Right {
            state.field_context.edit_in_focus(FieldEdit::Right);
        } else if c == KeyCode::Delete {
            state.field_context.edit_in_focus(FieldEdit::Delete);
        } else if c == KeyCode::F(1) {
            state.show_help = true;
        }
    } else if key.modifiers == KeyModifiers::Shift {
        if c == KeyCode::BackTab {
            state.field_context.previous();
        } else if let KeyCode::Char(ch) = c {
            state.field_context.edit_in_focus(FieldEdit::Type(ch));
        }
    }
}

/// Handles a key on the insert screen.
pub fn handle_insert(key: KeyEvent, state: &mut State) -> (r: KeyOutcome)
    requires
        old(state)@.view_mode == ViewMode::Insert,
        well_formed(old(state)@),
        !key_refused(old(state)@, key),
    ensures
        (final(state)@, outcome_view(r)) == key_step(old(state)@, key),
{
    if state.popup.show_popup {
        handle_popup(key, state)
    } else if state.show_help {
        handle_help(state);
        KeyOutcome::Done
    } else if key.code == KeyCode::Enter && is_plain_key(key) {
        match state.field_context.build_command() {
            Ok(command) => match state.commands.add_command(&command) {
                Ok(commands) => KeyOutcome::Save { commands, after: AfterSave::BackToMain },
                Err(error) => {
                    state.popup.show_error(error.to_string());
                    KeyOutcome::Done
                },
            },
            Err(error) => {
                state.popup.show_error(error.to_string());
                KeyOutcome::Done
            },
        }
    } else {
        handle_form_key(key, state);
        KeyOutcome::Done
    }
}

/// Handles a key on the edit screen.
pub fn handle_edit(key: KeyEvent, state: &mut State) -> (r: KeyOutcome)
    requires
        old(state)@.view_mode == ViewMode::Edit,
        well_formed(old(state)@),
        !key_refused(old(state)@, key),
    ensures
        (final(state)@, outcome_view(r)) == key_step(old(state)@, key),
{
    if state.popup.show_popup {
        handle_popup(key, state)
    } else if state.show_help {
        handle_help(state);
        KeyOutcome::Done
    } else if key.code == KeyCode::Enter && is_plain_key(key) {
        let current_command = state.field_context.get_current_command().unwrap().clone();
        match state.field_context.edit_command() {
            Ok(command) => match state.commands.add_edited_command(&command, &current_command) {
                Ok(commands) => KeyOutcome::Save { commands, after: AfterSave::BackToMain },
                Err(error) => {
                    state.popup.show_error(error.to_string());
                    KeyOutcome::Done
                },
            },
            Err(error) => {
                state.popup.show_error(error.to_string());
                KeyOutcome::Done
            },
        }
    } else {
        handle_form_key(key, state);
        KeyOutcome::Done
    }
}

/// Handles a key while the popup is shown.
fn handle_popup(key: KeyEvent, state: &mut State) -> (r: KeyOutcome)
    requires
        old(state)@.popup.show_popup,
        well_formed(old(state)@),
        !key_refused(old(state)@, key),
    ensures
        (final(state)@, outcome_view(r)) == popup_key(old(state)@, key),
{
    match state.popup.message_type {
        MessageType::Error => {
            if key.code == KeyCode::Enter && is_plain_key(key) {
                state.popup.clear();
            }
            KeyOutcome::Done
        },
        MessageType::Delete => {
            if !is_plain_key(key) {
                KeyOutcome::Done
            } else if key.code == KeyCode::Right {
                state.popup.next();
                KeyOutcome::Done
            } else if key.code == KeyCode::Left {
                state.popup.previous();
                KeyOutcome::Done
            } else if key.code == KeyCode::Enter {
                let sel = state.popup.options_state.selected().unwrap();
                match state.popup.options[sel] {
                    Answer::Okay => {
                        let current = state.field_context.get_current_command().unwrap().clone();
                        match state.commands.remove(&current) {
                            Ok(commands) => KeyOutcome::Save { commands, after: AfterSave::PopupCleared },
                            Err(error) => {
                                state.popup.clear();
                                state.popup.message = error.to_string();
                                KeyOutcome::Done
                            },
                        }
                    },
                    Answer::Cancel => {
                        state.popup.clear();
                        KeyOutcome::Done
                    },
                    Answer::NoAnswer => KeyOutcome::Done,
                }
            } else if key.code == KeyCode::Esc || key.code == KeyCode::Char('q') {
                state.popup.clear();
                KeyOutcome::Done
            } else {
                KeyOutcome::Done
            }
        },
        MessageType::NoMessage => KeyOutcome::Done,
    }
}

/// Handles a key on the screen shown.
pub fn handle(key: KeyEvent, state: &mut State) -> (r: KeyOutcome)
    requires
        well_formed(old(state)@),
        !key_refused(old(state)@, key),
    ensures
        (final(state)@, outcome_view(r)) == key_step(old(state)@, key),
{
    match state.view_mode {
        ViewMode::Main => handle_main(key, state),
        ViewMode::Insert => handle_insert(key, state),
        ViewMode::Edit => handle_edit(key, state),
    }
}

/// Applies what follows a successful write of the commands.
pub fn after_save(state: &mut State, after: AfterSave)
    requires
        well_formed(old(state)@),
    ensures
        final(state)@ == saved(old(state)@, after),
{
    match after {
        AfterSave::BackToMain => {
            state.reload_state();
            state.view_mode = ViewMode::Main;
        },
        AfterSave::PopupCleared => {
            state.popup.clear();
            state.reload_state();
        },
    }
}

/// Every key keeps the state well formed: there are namespaces to offer,
/// a command position, a field in focus, and the popup's two answers with
/// one selected.
pub proof fn law_key_keeps_well_formed(s: StateView, k: KeyEvent)
    requires
        well_formed(s),
        !key_refused(s, k),
    ensures
        well_formed(key_step(s, k).0),
{
    assert(cleared_fields(s.fields).len() == s.fields.len());
    assert(s.fields.map_values(|f: FieldView| shown_field(s.current_command->0, f)).len() == s.fields.len());
}

/// What follows a write keeps the state well formed.
pub proof fn law_save_keeps_well_formed(s: StateView, after: AfterSave)
    requires
        well_formed(s),
    ensures
        well_formed(saved(s, after)),
{
}

} // verus!
