//! The popup of the main screen: an error to acknowledge, or a deletion
//! to confirm.
use vstd::prelude::*;
use crate::gui::list_state::ListState;
use crate::text::own;

verus! {

/// What the popup is about.
#[derive(Clone, Copy, Debug, PartialEq, Eq, Structural)]
pub enum MessageType {
    NoMessage,
    Error,
    Delete,
}

/// An answer offered by the popup.
#[derive(Clone, Copy, Debug, PartialEq, Eq, Structural)]
pub enum Answer {
    NoAnswer,
    Okay,
    Cancel,
}

/// The popup taken by view.
pub struct PopUpView {
    pub show_popup: bool,
    pub message: Seq<char>,
    pub message_type: MessageType,
    pub answer: Answer,
    pub options: Seq<Answer>,
    pub selected: Option<usize>,
}

/// The popup: whether it is shown, its message and kind, the answer given,
/// the answers offered and the one selected.
pub struct PopUp {
    pub show_popup: bool,
    pub message: String,
    pub message_type: MessageType,
    pub answer: Answer,
    pub options: Vec<Answer>,
    pub options_state: ListState,
}

impl View for PopUp {
    type V = PopUpView;

    open spec fn view(&self) -> PopUpView {
        PopUpView {
            show_popup: self.show_popup,
            message: self.message@,
            message_type: self.message_type,
            answer: self.answer,
            options: self.options@,
            selected: self.options_state.selection(),
        }
    }
}

/// The answers the popup offers.
pub open spec fn offered_answers() -> Seq<Answer> {
    seq![Answer::Okay, Answer::Cancel]
}

/// A hidden, empty popup offering its answers, the first selected.
pub open spec fn cleared_popup(options: Seq<Answer>) -> PopUpView {
    PopUpView {
        show_popup: false,
        message: Seq::<char>::empty(),
        message_type: MessageType::NoMessage,
        answer: Answer::NoAnswer,
        options,
        selected: Some(0usize),
    }
}

/// The answer after the selected one, the first after the last.
pub open spec fn next_answer(p: PopUpView) -> PopUpView {
    let i = match p.selected {
        Some(i) => if i >= p.options.len() - 1 { 0 } else { i + 1 },
        None => 0,
    };
    PopUpView { selected: Some(i as usize), ..p }
}

/// The answer before the selected one, the last before the first.
pub open spec fn previous_answer(p: PopUpView) -> PopUpView {
    let i = match p.selected {
        Some(i) => if i == 0 { p.options.len() - 1 } else { i - 1 },
        None => 0,
    };
    PopUpView { selected: Some(i as usize), ..p }
}

impl PopUp {
    /// A hidden popup offering Ok and Cancel, Ok selected.
    pub fn init() -> (r: PopUp)
        ensures
            r@ == cleared_popup(offered_answers()),
    {
        let mut options: Vec<Answer> = Vec::new();
        options.push(Answer::Okay);
        options.push(Answer::Cancel);
        let mut state = ListState::new();
        state.select(Some(0));
        let r = PopUp {
            show_popup: false,
            message: String::new(),
            message_type: MessageType::NoMessage,
            answer: Answer::NoAnswer,
            options,
            options_state: state,
        };
        assert(r@.options =~= offered_answers());
        r
    }

    /// Hides the popup and empties it; the first answer is selected.
    pub fn clear(&mut self)
        ensures
            final(self)@ == cleared_popup(old(self)@.options),
    {
        self.message = String::new();
        self.show_popup = false;
        self.message_type = MessageType::NoMessage;
        self.answer = Answer::NoAnswer;
        self.options_state.select(Some(0));
    }

    /// Selects the next answer.
    pub fn next(&mut self)
        requires
            old(self)@.options.len() > 0,
        ensures
            final(self)@ == next_answer(old(self)@),
    {
        let i = match self.options_state.selected() {
            Some(i) => if i >= self.options.len() - 1 {
                0
            } else {
                i + 1
            },
            None => 0,
        };
        self.options_state.select(Some(i));
    }

    /// Selects the previous answer.
    pub fn previous(&mut self)
        requires
            old(self)@.options.len() > 0,
        ensures
            final(self)@ == previous_answer(old(self)@),
    {
        let i = match self.options_state.selected() {
            Some(i) => if i == 0 {
                self.options.len() - 1
            } else {
                i - 1
            },
            None => 0,
        };
        self.options_state.select(Some(i));
    }

    /// Shows an error.
    pub fn show_error(&mut self, message: String)
        ensures
            final(self)@ == (PopUpView {
                message_type: MessageType::Error,
                message: message@,
                show_popup: true,
                ..old(self)@
            }),
    {
        self.message_type = MessageType::Error;
        self.message = message;
        self.show_popup = true;
    }

    /// Asks to confirm the deletion of the selected command.
    pub fn ask_delete(&mut self)
        ensures
            final(self)@ == (PopUpView {
                message: delete_question(),
                show_popup: true,
                message_type: MessageType::Delete,
                ..old(self)@
            }),
    {
        self.message = own("Are you sure you want to delete the command?");
        self.show_popup = true;
        self.message_type = MessageType::Delete;
    }
}

/// The question asked before deleting a command.
pub open spec fn delete_question() -> Seq<char> {
    "Are you sure you want to delete the command?"@
}

} // verus!
