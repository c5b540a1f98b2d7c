//! The popup shown over a screen and the answer selected in it, the
//! selection wrapping around.
use vstd::prelude::*;
use crate::gui::entities::answer_state::AnswerState;
use crate::gui::entities::contexts::Selectable;
use crate::gui::entities::contexts::namespaces_context::{previous_position, wrap_next, wrap_previous};
use crate::gui::entities::popup_context::popup_view;
use crate::gui::widgets::popup::{Answer, Popup, PopupView};
use crate::gui::entities::contexts::namespaces_context::law_wrap_round_trip;

verus! {

/// The popup shown, if any, the answer selected and the answer given.
pub struct PopupContext {
    pub answer: Option<Answer>,
    pub answer_state: AnswerState,
    pub popup: Option<Popup>,
}

/// The position selected, 0 when none is.
pub open spec fn selected_or_first(i: Option<usize>) -> int {
    match i {
        Some(i) => i as int,
        None => 0,
    }
}

/// A popup context taken by view.
pub struct PopupCtxView {
    pub answer: Option<Answer>,
    pub selected: Option<usize>,
    pub popup: Option<PopupView>,
}

/// A popup context taken by view.
pub open spec fn ctx_view(c: PopupContext) -> PopupCtxView {
    PopupCtxView { answer: c.answer, selected: c.answer_state.selected, popup: popup_view(c.popup) }
}

/// What can be done to a popup context.
pub enum PopupOp {
    /// `set_popup`.
    Show(Option<PopupView>),
    /// `clear`.
    Clear,
    /// `next`.
    Next,
    /// `previous`.
    Previous,
    /// A selection written through `state_mut`.
    Select(Option<usize>),
}

/// The popup context after one operation.
pub open spec fn popup_step(v: PopupCtxView, op: PopupOp) -> PopupCtxView {
    match op {
        PopupOp::Show(p) => PopupCtxView { popup: p, ..v },
        PopupOp::Clear => PopupCtxView { answer: None, selected: Some(0usize), popup: None },
        PopupOp::Next => match v.popup {
            Some(p) => PopupCtxView {
                selected: Some(wrap_next(selected_or_first(v.selected), p.choices.len() as int) as usize),
                ..v
            },
            None => v,
        },
        PopupOp::Previous => match v.popup {
            Some(p) => PopupCtxView {
                selected: Some(wrap_previous(selected_or_first(v.selected), p.choices.len() as int) as usize),
                ..v
            },
            None => v,
        },
        PopupOp::Select(i) => PopupCtxView { selected: i, ..v },
    }
}

/// The popup context after the operations, in turn.
pub open spec fn popup_run(v: PopupCtxView, ops: Seq<PopupOp>) -> PopupCtxView
    decreases ops.len(),
{
    if ops.len() == 0 {
        v
    } else {
        popup_step(popup_run(v, ops.drop_last()), ops.last())
    }
}

/// No operation stores an answer: a context without one never gets one.
pub proof fn law_no_answer_stored(v: PopupCtxView, ops: Seq<PopupOp>)
    requires
        v.answer is None,
    ensures
        popup_run(v, ops).answer is None,
    decreases ops.len(),
{
    if ops.len() > 0 {
        law_no_answer_stored(v, ops.drop_last());
    }
}

/// Whether the operations leave the popup shown as it is: they only move
/// or write the selection.
pub open spec fn keeps_popup(ops: Seq<PopupOp>) -> bool {
    forall|i: int| 0 <= i < ops.len() ==> (#[trigger] ops[i] is Next || ops[i] is Previous || ops[i] is Select)
}

/// The popup shown is the one set last: after `set_popup`, moving or writing
/// the selection keeps it, and `get_popup` gives it back.
pub proof fn law_popup_kept(v: PopupCtxView, p: Option<PopupView>, ops: Seq<PopupOp>)
    requires
        keeps_popup(ops),
    ensures
        popup_run(popup_step(v, PopupOp::Show(p)), ops).popup == p,
    decreases ops.len(),
{
    if ops.len() > 0 {
        let d = ops.drop_last();
        assert forall|i: int| 0 <= i < d.len() implies (#[trigger] d[i] is Next || d[i] is Previous || d[i] is Select) by {
            assert(d[i] == ops[i]);
        }
        law_popup_kept(v, p, d);
        assert(ops[ops.len() - 1] == ops.last());
    }
}

/// Whether the operations only move the selection or close the popup.
pub open spec fn moves_only(ops: Seq<PopupOp>) -> bool {
    forall|i: int| 0 <= i < ops.len() ==> (#[trigger] ops[i] is Next || ops[i] is Previous || ops[i] is Clear)
}

/// Once a popup with answers is shown over a new context, moving the
/// selection and closing the popup keep an answer of that popup selected.
pub proof fn law_selection_in_range(p: PopupView, ops: Seq<PopupOp>)
    requires
        p.choices.len() >= 1,
        p.choices.len() <= usize::MAX,
        moves_only(ops),
    ensures
        popup_run(PopupCtxView { answer: None, selected: Some(0usize), popup: Some(p) }, ops).selected matches Some(k)
            && (k as int) < p.choices.len(),
        popup_run(PopupCtxView { answer: None, selected: Some(0usize), popup: Some(p) }, ops).answer is None,
    decreases ops.len(),
{
    let start = PopupCtxView { answer: None, selected: Some(0usize), popup: Some(p) };
    lemma_selection_stays(p, start, ops);
    law_no_answer_stored(start, ops);
}

proof fn lemma_selection_stays(p: PopupView, v: PopupCtxView, ops: Seq<PopupOp>)
    requires
        p.choices.len() >= 1,
        p.choices.len() <= usize::MAX,
        moves_only(ops),
        v.popup == Some(p) || v.popup is None,
        v.selected matches Some(k) && (k as int) < p.choices.len(),
    ensures
        popup_run(v, ops).popup == Some(p) || popup_run(v, ops).popup is None,
        popup_run(v, ops).selected matches Some(k) && (k as int) < p.choices.len(),
    decreases ops.len(),
{
    if ops.len() > 0 {
        let d = ops.drop_last();
        assert forall|i: int| 0 <= i < d.len() implies (#[trigger] d[i] is Next || d[i] is Previous || d[i] is Clear) by {
            assert(d[i] == ops[i]);
        }
        lemma_selection_stays(p, v, d);
        let w = popup_run(v, d);
        let n = p.choices.len() as int;
        let i = selected_or_first(w.selected);
        assert(ops[ops.len() - 1] == ops.last());
        if w.popup is Some {
            law_wrap_round_trip(i, n);
            assert(wrap_next(i, n) as usize as int == wrap_next(i, n));
            assert(wrap_previous(i, n) as usize as int == wrap_previous(i, n));
        }
    }
}

impl PopupContext {
    /// No popup, the first answer selected.
    pub fn new() -> (r: PopupContext)
        ensures
            r.answer is None,
            r.popup is None,
            r.answer_state.selected == Some(0usize),
            ctx_view(r) == (PopupCtxView { answer: None, selected: Some(0usize), popup: None }),
    {
        PopupContext { answer: None, answer_state: AnswerState { selected: Some(0) }, popup: None }
    }

    /// A copy of the popup shown.
    pub fn get_popup(&self) -> (r: Option<Popup>)
        ensures
            popup_view(r) == popup_view(self.popup),
    {
        match &self.popup {
            Some(p) => Some(p.duplicate()),
            None => None,
        }
    }

    /// Shows a popup, or none.
    pub fn set_popup(&mut self, popup: Option<Popup>)
        ensures
            popup_view(final(self).popup) == popup_view(popup),
            final(self).answer == old(self).answer,
            final(self).answer_state == old(self).answer_state,
            ctx_view(*final(self)) == popup_step(ctx_view(*old(self)), PopupOp::Show(popup_view(popup))),
    {
        self.popup = popup;
    }

    /// The selected answer.
    pub fn state(&self) -> (r: &AnswerState)
        ensures
            *r == self.answer_state,
    {
        &self.answer_state
    }

    /// The selected answer, to change it.
    pub fn state_mut(&mut self) -> (r: &mut AnswerState)
        ensures
            *r == old(self).answer_state,
            final(self).answer_state == *final(r),
            final(self).answer == old(self).answer,
            popup_view(final(self).popup) == popup_view(old(self).popup),
            ctx_view(*final(self)) == popup_step(ctx_view(*old(self)), PopupOp::Select(final(r).selected)),
    {
        &mut self.answer_state
    }

    /// The answer given.
    pub fn answer(&self) -> (r: Option<Answer>)
        ensures
            r == self.answer,
    {
        self.answer
    }

    /// Closes the popup and forgets the answer; the first is selected.
    pub fn clear(&mut self)
        ensures
            final(self).answer is None,
            final(self).popup is None,
            final(self).answer_state.selected == Some(0usize),
            ctx_view(*final(self)) == popup_step(ctx_view(*old(self)), PopupOp::Clear),
    {
        self.answer = None;
        self.popup = None;
        self.answer_state.select(Some(0));
    }
}

impl Selectable for PopupContext {
    /// Any state can take a move; without a popup nothing changes.
    open spec fn has_items(&self) -> bool {
        true
    }

    /// Selects the next answer of the popup shown, the first after the last.
    fn next(&mut self)
        ensures
            final(self).answer_state.selected == (match popup_view(old(self).popup) {
                Some(p) => Some(wrap_next(selected_or_first(old(self).answer_state.selected), p.choices.len() as int) as usize),
                None => old(self).answer_state.selected,
            }),
            final(self).answer == old(self).answer,
            popup_view(final(self).popup) == popup_view(old(self).popup),
            ctx_view(*final(self)) == popup_step(ctx_view(*old(self)), PopupOp::Next),
            popup_view(old(self).popup) matches Some(p) ==> (final(self).answer_state.selected matches Some(k)
                && (k as int) < p.choices.len()),
    {
        if let Some(popup) = &self.popup {
            let n = popup.choice_count();
            let current = match self.answer_state.selected() {
                Some(i) => i,
                None => 0,
            };
            let next = if current < n {
                (current + 1) % n
            } else {
                (current % n + 1) % n
            };
            proof {
                if current >= n {
                    if n > 1 {
                        vstd::arithmetic::div_mod::lemma_add_mod_noop(current as int, 1, n as int);
                        vstd::arithmetic::div_mod::lemma_small_mod(1, n as nat);
                    } else {
                        vstd::arithmetic::div_mod::lemma_mod_bound((current % n) as int + 1, 1);
                        vstd::arithmetic::div_mod::lemma_mod_bound(current as int + 1, 1);
                    }
                }
            }
            self.answer_state.select(Some(next));
        }
    }

    /// Selects the previous answer of the popup shown, the last before the
    /// first.
    fn previous(&mut self)
        ensures
            final(self).answer_state.selected == (match popup_view(old(self).popup) {
                Some(p) => Some(wrap_previous(selected_or_first(old(self).answer_state.selected), p.choices.len() as int) as usize),
                None => old(self).answer_state.selected,
            }),
            final(self).answer == old(self).answer,
            popup_view(final(self).popup) == popup_view(old(self).popup),
            ctx_view(*final(self)) == popup_step(ctx_view(*old(self)), PopupOp::Previous),
            popup_view(old(self).popup) matches Some(p) ==> (final(self).answer_state.selected matches Some(k)
                && (k as int) < p.choices.len()),
    {
        if let Some(popup) = &self.popup {
            let n = popup.choice_count();
            let current = match self.answer_state.selected() {
                Some(i) => i,
                None => 0,
            };
            let previous = previous_position(current, n);
            self.answer_state.select(Some(previous));
        }
    }
}

} // verus!
