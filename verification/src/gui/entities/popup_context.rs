//! The popup shown over a screen and the answer selected in it.
use vstd::prelude::*;
use crate::gui::entities::answer_state::AnswerState;
use crate::gui::widgets::popup::{Answer, Popup, PopupView};

verus! {

/// The popup shown, if any, the answer selected and the answer given.
pub struct PopupContext {
    pub answer: Option<Answer>,
    pub answer_state: AnswerState,
    pub popup: Option<Popup>,
}

/// The popup shown, taken by view.
pub open spec fn popup_view(p: Option<Popup>) -> Option<PopupView> {
    match p {
        Some(p) => Some(p@),
        None => None,
    }
}

/// The answer after `i` among `n`, the first after the last.
pub open spec fn answer_after(i: Option<usize>, n: int) -> usize {
    let i = match i {
        Some(i) => i as int,
        None => 0,
    };
    (if i >= n - 1 { 0 } else { i + 1 }) as usize
}

/// The answer before `i` among `n`, the last before the first.
pub open spec fn answer_before(i: Option<usize>, n: int) -> usize {
    let i = match i {
        Some(i) => i as int,
        None => 0,
    };
    (if i == 0 { n - 1 } else { i - 1 }) as usize
}

impl PopupContext {
    /// No popup, the first answer selected.
    pub fn new() -> (r: PopupContext)
        ensures
            r.answer is None,
            r.popup is None,
            r.answer_state.selected == Some(0usize),
    {
        PopupContext { answer: None, answer_state: AnswerState { selected: Some(0) }, popup: None }
    }

    /// A copy of the popup shown.
    pub fn get_popup(&self) -> (r: Option<Popup>)
        ensures
            popup_view(r) == popup_view(self.popup),
    {
        match &self.popup {
            Some(p) => Some(p.duplicate()),
            None => None,
        }
    }

    /// Shows a popup, or none.
    pub fn set_popup(&mut self, popup: Option<Popup>)
        ensures
            popup_view(final(self).popup) == popup_view(popup),
            final(self).answer == old(self).answer,
            final(self).answer_state == old(self).answer_state,
    {
        self.popup = popup;
    }

    /// The selected answer.
    pub fn state(&self) -> (r: &AnswerState)
        ensures
            *r == self.answer_state,
    {
        &self.answer_state
    }

    /// The selected answer, to change it.
    pub fn state_mut(&mut self) -> (r: &mut AnswerState)
        ensures
            *r == old(self).answer_state,
            final(self).answer_state == *final(r),
            final(self).answer == old(self).answer,
            popup_view(final(self).popup) == popup_view(old(self).popup),
    {
        &mut self.answer_state
    }

    /// The answer given.
    pub fn answer(&self) -> (r: Option<Answer>)
        ensures
            r == self.answer,
    {
        self.answer
    }

    /// Closes the popup and forgets the answer; the first is selected.
    pub fn clear(&mut self)
        ensures
            final(self).answer is None,
            final(self).popup is None,
            final(self).answer_state.selected == Some(0usize),
    {
        self.answer = None;
        self.popup = None;
        self.answer_state.select(Some(0));
    }

    /// Selects the next answer of the popup shown, the first after the last.
    pub fn next(&mut self)
        ensures
            final(self).answer_state.selected == (match popup_view(old(self).popup) {
                Some(p) => Some(answer_after(old(self).answer_state.selected, p.choices.len() as int)),
                None => old(self).answer_state.selected,
            }),
            final(self).answer == old(self).answer,
            popup_view(final(self).popup) == popup_view(old(self).popup),
    {
        if let Some(popup) = &self.popup {
            let n = popup.choice_count();
            let mut i = match self.answer_state.selected() {
                Some(i) => i,
                None => 0,
            };
            i = if i >= n - 1 {
                0
            } else {
                i + 1
            };
            self.answer_state.select(Some(i));
        }
    }

    /// Selects the previous answer of the popup shown, the last before the
    /// first.
    pub fn previous(&mut self)
        ensures
            final(self).answer_state.selected == (match popup_view(old(self).popup) {
                Some(p) => Some(answer_before(old(self).answer_state.selected, p.choices.len() as int)),
                None => old(self).answer_state.selected,
            }),
            final(self).answer == old(self).answer,
            popup_view(final(self).popup) == popup_view(old(self).popup),
    {
        if let Some(popup) = &self.popup {
            let n = popup.choice_count();
            let mut i = match self.answer_state.selected() {
                Some(i) => i,
                None => 0,
            };
            i = if i == 0 {
                n - 1
            } else {
                i - 1
            };
            self.answer_state.select(Some(i));
        }
    }
}

} // verus!
