//! A popup with a message and the answers it offers.
use vstd::prelude::*;
use crate::gui::list_state::ListState;

verus! {

/// The kind of message a popup shows.
#[derive(Clone, Copy, Debug, PartialEq, Eq, Structural)]
pub enum MessageType {
    NoMessage,
    Error,
    Warning,
}

impl MessageType {
    /// The title shown for the kind of message.
    pub fn label(&self) -> (r: &'static str)
        ensures
            *self == MessageType::NoMessage ==> r@ == ""@,
            *self == MessageType::Error ==> r@ == " Error "@,
            *self == MessageType::Warning ==> r@ == " Warning "@,
    {
        match self {
            MessageType::NoMessage => "",
            MessageType::Error => " Error ",
            MessageType::Warning => " Warning ",
        }
    }
}

/// An answer offered by a popup.
#[derive(Clone, Copy, Debug, PartialEq, Eq, Structural)]
pub enum Answer {
    NoAnswer,
    Okay,
    Cancel,
}

impl Answer {
    /// The text shown for the answer.
    pub fn label(&self) -> (r: &'static str)
        ensures
            *self == Answer::NoAnswer ==> r@ == ""@,
            *self == Answer::Okay ==> r@ == "Ok"@,
            *self == Answer::Cancel ==> r@ == "Cancel"@,
    {
        match self {
            Answer::NoAnswer => "",
            Answer::Okay => "Ok",
            Answer::Cancel => "Cancel",
        }
    }
}

/// A popup: whether it is shown, its message and kind, the answer given,
/// the answers offered and the one selected.
pub struct PopUp {
    pub popup: bool,
    pub message: String,
    pub message_type: MessageType,
    pub answer: Answer,
    pub options: Vec<Answer>,
    pub options_state: ListState,
}

/// The answer after `i` among `n`: the first after the last, and the first
/// when none is selected.
pub open spec fn next_option(selected: Option<usize>, n: int) -> Option<usize> {
    match selected {
        Some(i) => if i >= n - 1 {
            Some(0usize)
        } else {
            Some((i + 1) as usize)
        },
        None => Some(0usize),
    }
}

/// The answer before `i` among `n`: the last before the first, and the
/// first when none is selected.
pub open spec fn previous_option(selected: Option<usize>, n: int) -> Option<usize> {
    match selected {
        Some(i) => if i == 0 {
            Some((n - 1) as usize)
        } else {
            Some((i - 1) as usize)
        },
        None => Some(0usize),
    }
}

impl PopUp {
    /// A hidden popup with nothing in it.
    pub fn init() -> (r: PopUp)
        ensures
            !r.popup,
            r.message@.len() == 0,
            r.message_type == MessageType::NoMessage,
            r.answer == Answer::NoAnswer,
            r.options@.len() == 0,
            r.options_state.selection() is None,
    {
        PopUp {
            popup: false,
            message: String::new(),
            message_type: MessageType::NoMessage,
            answer: Answer::NoAnswer,
            options: Vec::new(),
            options_state: ListState::new(),
        }
    }

    /// Hides the popup and empties it; the first answer is selected.
    pub fn clear(&mut self)
        ensures
            !final(self).popup,
            final(self).message@.len() == 0,
            final(self).message_type == MessageType::NoMessage,
            final(self).answer == Answer::NoAnswer,
            final(self).options@.len() == 0,
            final(self).options_state.selection() == Some(0usize),
    {
        self.message = String::new();
        self.popup = false;
        self.message_type = MessageType::NoMessage;
        self.answer = Answer::NoAnswer;
        self.options = Vec::new();
        self.options_state.select(Some(0));
    }

    /// Selects the next answer.
    pub fn next(&mut self)
        requires
            old(self).options_state.selection() is Some ==> old(self).options@.len() > 0,
        ensures
            final(self).options_state.selection() == next_option(
                old(self).options_state.selection(),
                old(self).options@.len() as int,
            ),
            final(self).options@ == old(self).options@,
            final(self).popup == old(self).popup,
            final(self).message@ == old(self).message@,
            final(self).message_type == old(self).message_type,
            final(self).answer == old(self).answer,
    {
        let i = match self.options_state.selected() {
            Some(i) => if i >= self.options.len() - 1 {
                0
            } else {
                i + 1
            },
            None => 0,
        };
        self.options_state.select(Some(i));
    }

    /// Selects the previous answer.
    pub fn previous(&mut self)
        requires
            old(self).options_state.selection() is Some ==> old(self).options@.len() > 0,
        ensures
            final(self).options_state.selection() == previous_option(
                old(self).options_state.selection(),
                old(self).options@.len() as int,
            ),
            final(self).options@ == old(self).options@,
            final(self).popup == old(self).popup,
            final(self).message@ == old(self).message@,
            final(self).message_type == old(self).message_type,
            final(self).answer == old(self).answer,
    {
        let i = match self.options_state.selected() {
            Some(i) => if i == 0 {
                self.options.len() - 1
            } else {
                i - 1
            },
            None => 0,
        };
        self.options_state.select(Some(i));
    }
}

} // verus!
