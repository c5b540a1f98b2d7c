//! Whether a popup is shown, and what it says.
use vstd::prelude::*;

verus! {

/// The kind of message a popup shows.
#[derive(Clone, Copy, Debug, PartialEq, Eq, Structural)]
pub enum MessageType {
    NoMessage,
    Error,
    Confirmation,
}

impl MessageType {
    /// The title shown for the kind of message.
    pub fn label(&self) -> (r: &'static str)
        ensures
            *self == MessageType::NoMessage ==> r@ == ""@,
            *self == MessageType::Error ==> r@ == " Error "@,
            *self == MessageType::Confirmation ==> r@ == " Warning "@,
    {
        match self {
            MessageType::NoMessage => "",
            MessageType::Error => " Error ",
            MessageType::Confirmation => " Warning ",
        }
    }
}

/// An answer to a popup.
#[derive(Clone, Copy, Debug, PartialEq, Eq, Structural)]
pub enum Answer {
    NoAnswer,
    Okay,
    Cancel,
}

/// Whether a popup is shown, its message, its kind and the answer given.
pub struct PopUpState {
    pub show_popup: bool,
    pub message: String,
    pub message_type: MessageType,
    pub answer: Answer,
}

impl PopUpState {
    /// A hidden popup with nothing in it.
    pub fn init() -> (r: PopUpState)
        ensures
            !r.show_popup,
            r.message@.len() == 0,
            r.message_type == MessageType::NoMessage,
            r.answer == Answer::NoAnswer,
    {
        PopUpState {
            show_popup: false,
            message: String::new(),
            message_type: MessageType::NoMessage,
            answer: Answer::NoAnswer,
        }
    }
}

} // verus!
