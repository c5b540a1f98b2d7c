//! A popup: a warning that asks to confirm, or an error to acknowledge.
use vstd::prelude::*;
use crate::gui::entities::events::app_events::PopupCallbackAction;

verus! {

/// An answer offered by a popup.
#[derive(Clone, Copy, Debug, PartialEq, Eq, Structural)]
pub enum Answer {
    Okay,
    Cancel,
}

/// What a popup is about.
#[derive(Clone, Copy, Debug, PartialEq, Eq, Structural)]
pub enum MessageType {
    Error,
    Warning,
}

/// A popup taken by view.
pub struct PopupView {
    pub message: Seq<char>,
    pub message_type: MessageType,
    pub choices: Seq<Answer>,
    pub callback: PopupCallbackAction,
}

/// A popup: its message and kind, the answers it offers, and what the
/// answer Ok does.
#[derive(Debug)]
pub struct Popup {
    message: String,
    message_type: MessageType,
    choices: Vec<Answer>,
    callback: PopupCallbackAction,
}

impl View for Popup {
    type V = PopupView;

    closed spec fn view(&self) -> PopupView {
        PopupView {
            message: self.message@,
            message_type: self.message_type,
            choices: self.choices@,
            callback: self.callback,
        }
    }
}

impl Popup {
    /// A popup always offers an answer.
    #[verifier::type_invariant]
    spec fn offers_answer(&self) -> bool {
        self.choices@.len() > 0
    }

    /// How many answers are offered; always at least one.
    pub fn choice_count(&self) -> (r: usize)
        ensures
            r == self@.choices.len(),
            r > 0,
    {
        proof {
            use_type_invariant(self);
        }
        self.choices.len()
    }

    /// A warning offering Ok and Cancel; Ok runs the callback.
    pub fn from_warning(message: String, callback: PopupCallbackAction) -> (r: Popup)
        ensures
            r@ == (PopupView {
                message: message@,
                message_type: MessageType::Warning,
                choices: seq![Answer::Okay, Answer::Cancel],
                callback,
            }),
    {
        let mut choices: Vec<Answer> = Vec::new();
        choices.push(Answer::Okay);
        choices.push(Answer::Cancel);
        let r = Popup { message, message_type: MessageType::Warning, choices, callback };
        assert(r@.choices =~= seq![Answer::Okay, Answer::Cancel]);
        r
    }

    /// An error offering Ok alone, which closes it.
    pub fn from_error(message: String) -> (r: Popup)
        ensures
            r@ == (PopupView {
                message: message@,
                message_type: MessageType::Error,
                choices: seq![Answer::Okay],
                callback: PopupCallbackAction::NoAction,
            }),
    {
        let mut choices: Vec<Answer> = Vec::new();
        choices.push(Answer::Okay);
        let r = Popup { message, message_type: MessageType::Error, choices, callback: PopupCallbackAction::NoAction };
        assert(r@.choices =~= seq![Answer::Okay]);
        r
    }

    /// The message.
    pub fn message(&self) -> (r: &str)
        ensures
            r@ == self@.message,
    {
        self.message.as_str()
    }

    /// The kind of message.
    pub fn message_type(&self) -> (r: MessageType)
        ensures
            r == self@.message_type,
    {
        self.message_type
    }

    /// The answers offered.
    pub fn choices(&self) -> (r: &Vec<Answer>)
        ensures
            r@ == self@.choices,
    {
        &self.choices
    }

    /// What the answer Ok does.
    pub fn callback(&self) -> (r: PopupCallbackAction)
        ensures
            r == self@.callback,
    {
        self.callback
    }

    /// A copy of the popup.
    pub fn duplicate(&self) -> (r: Popup)
        ensures
            r@ == self@,
    {
        proof {
            use_type_invariant(self);
        }
        let mut choices: Vec<Answer> = Vec::new();
        let mut i: usize = 0;
        while i < self.choices.len()
            invariant
                i <= self.choices.len(),
                choices@ == self.choices@.take(i as int),
            decreases self.choices.len() - i,
        {
            choices.push(self.choices[i]);
            assert(self.choices@.take(i + 1) =~= self.choices@.take(i as int).push(self.choices@[i as int]));
            i = i + 1;
        }
        assert(self.choices@.take(self.choices.len() as int) =~= self.choices@);
        Popup { message: self.message.clone(), message_type: self.message_type, choices, callback: self.callback }
    }
}

} // verus!
