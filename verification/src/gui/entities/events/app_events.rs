//! The events of the interface: run a command, show a screen, answer a
//! popup, move in a list, type in the query box or a form field.
use vstd::prelude::*;
use crate::gui::entities::context::FieldEdit;

verus! {

/// The screens that can be shown.
#[derive(Clone, Copy, Debug, PartialEq, Eq, Structural)]
pub enum RenderEvents {
    Main,
    Edit,
    Insert,
}

/// What can be done with a command.
#[derive(Clone, Copy, Debug, PartialEq, Eq, Structural)]
pub enum CommandEvents {
    Execute,
    Edit,
    Insert,
    Copy,
}

/// What the answer Ok of a popup does.
#[derive(Clone, Copy, Debug, PartialEq, Eq, Structural)]
pub enum PopupCallbackAction {
    /// Deletes the selected command.
    DeleteCommand,
    /// Nothing but closing the popup.
    NoAction,
    /// Shows a screen.
    Render(RenderEvents),
}

/// The popups that can be opened.
#[derive(Debug)]
pub enum PopupType {
    Help,
    Dialog { message: String, callback_action: PopupCallbackAction },
}

/// What can happen to a popup.
#[derive(Debug)]
pub enum PopupEvent {
    Enable(PopupType),
    Answer,
    Disable,
    NextChoice,
    PreviousChoice,
}

/// What can happen to the query box.
#[derive(Clone, Copy, Debug, PartialEq, Eq, Structural)]
pub enum QueryboxEvent {
    Active,
    Deactive,
    Input(FieldEdit),
}

/// Moves on the main screen.
#[derive(Clone, Copy, Debug, PartialEq, Eq, Structural)]
pub enum MainScreenEvent {
    NextCommand,
    PreviousCommand,
    NextNamespace,
    PreviousNamespace,
}

/// Moves and keys on the form screens.
#[derive(Clone, Copy, Debug, PartialEq, Eq, Structural)]
pub enum FormScreenEvent {
    NextField,
    PreviousField,
    Input(FieldEdit),
}

/// Events of a screen.
#[derive(Clone, Copy, Debug, PartialEq, Eq, Structural)]
pub enum ScreenEvents {
    Main(MainScreenEvent),
    Form(FormScreenEvent),
}

/// An event of the interface.
#[derive(Debug)]
pub enum AppEvents {
    Run(CommandEvents),
    Render(RenderEvents),
    Screen(ScreenEvents),
    Popup(PopupEvent),
    QueryBox(QueryboxEvent),
    Quit,
}

} // verus!
