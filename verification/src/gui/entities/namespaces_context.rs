//! The namespaces offered on the main screen, in the layout where the
//! selection stops at the ends before wrapping.
use vstd::prelude::*;
use crate::commands::{all_namespace, law_namespace_choices, namespace_choices, sorted_namespaces};
use crate::gui::entities::namespace_state::NamespaceState;
use crate::gui::entities::contexts::namespaces_context::NamespaceMove;
use crate::text::{own, strs};

verus! {

/// The namespaces offered, the position selected and the namespace shown.
pub struct NamespacesContext {
    namespaces: Vec<String>,
    namespace_state: NamespaceState,
    current_namespace: String,
}

/// The namespace at position `i`, or `"All"` past the end.
pub open spec fn namespace_at(ns: Seq<Seq<char>>, i: int) -> Seq<char> {
    if 0 <= i < ns.len() {
        ns[i]
    } else {
        all_namespace()
    }
}

/// The position after `i` among `n`: back to 0 from the last one or beyond.
pub open spec fn step_next(i: int, n: int) -> int {
    if i >= n - 1 {
        0
    } else {
        i + 1
    }
}

/// The position before `i` among `n`: the last one from 0.
pub open spec fn step_previous(i: int, n: int) -> int {
    if i == 0 {
        n - 1
    } else {
        i - 1
    }
}

/// The position after the moves, in turn, from position `i` among `n`.
pub open spec fn stepped_after(i: int, n: int, moves: Seq<NamespaceMove>) -> int
    decreases moves.len(),
{
    if moves.len() == 0 {
        i
    } else {
        let j = stepped_after(i, n, moves.drop_last());
        match moves.last() {
            NamespaceMove::Next => step_next(j, n),
            NamespaceMove::Previous => step_previous(j, n),
            NamespaceMove::Reset => 0,
        }
    }
}

/// From a position among `n` namespaces, any sequence of moves keeps the
/// position among them; `new` starts at 0.
pub proof fn law_stepped_position_in_range(i: int, n: int, moves: Seq<NamespaceMove>)
    requires
        0 <= i < n,
    ensures
        0 <= stepped_after(i, n, moves) < n,
    decreases moves.len(),
{
    if moves.len() > 0 {
        law_stepped_position_in_range(i, n, moves.drop_last());
    }
}

/// One move.
proof fn lemma_one_step(i: int, n: int, m: NamespaceMove)
    ensures
        stepped_after(i, n, seq![m]) == (match m {
            NamespaceMove::Next => step_next(i, n),
            NamespaceMove::Previous => step_previous(i, n),
            NamespaceMove::Reset => 0,
        }),
{
    let one = seq![m];
    assert(one.drop_last() =~= Seq::<NamespaceMove>::empty());
    assert(one.last() == m);
    assert(stepped_after(i, n, Seq::<NamespaceMove>::empty()) == i);
    assert(stepped_after(i, n, one) == (match m {
        NamespaceMove::Next => step_next(stepped_after(i, n, one.drop_last()), n),
        NamespaceMove::Previous => step_previous(stepped_after(i, n, one.drop_last()), n),
        NamespaceMove::Reset => 0,
    }));
}

impl NamespacesContext {
    /// There is always a namespace to offer.
    #[verifier::type_invariant]
    spec fn well_formed(&self) -> bool {
        self.namespaces@.len() >= 1
    }

    /// The namespaces offered.
    pub closed spec fn offered(&self) -> Seq<Seq<char>> {
        strs(self.namespaces@)
    }

    /// The position selected.
    pub closed spec fn position(&self) -> usize {
        self.namespace_state.selected
    }

    /// The namespace shown.
    pub closed spec fn current(&self) -> Seq<char> {
        self.current_namespace@
    }

    /// The namespaces offered for the given ones: `"All"` and each of them
    /// once, in ascending order; the first is selected.
    pub fn new(namespaces: Vec<String>) -> (r: NamespacesContext)
        ensures
            r.offered() == namespace_choices(strs(namespaces@)),
            r.position() == 0,
            r.current() == namespace_choices(strs(namespaces@))[0],
            (r.position() as int) < r.offered().len(),
    {
        let filtered = sorted_namespaces(&namespaces);
        proof {
            law_namespace_choices(strs(namespaces@));
        }
        assert(strs(filtered@).len() == filtered@.len());
        let current = filtered[0].clone();
        assert(strs(filtered@)[0] == filtered@[0]@);
        NamespacesContext {
            namespaces: filtered,
            namespace_state: NamespaceState { selected: 0 },
            current_namespace: current,
        }
    }

    /// The namespaces offered.
    pub fn namespaces(&self) -> (r: &Vec<String>)
        ensures
            strs(r@) == self.offered(),
    {
        &self.namespaces
    }

    /// The namespace shown.
    pub fn current_namespace(&self) -> (r: String)
        ensures
            r@ == self.current(),
    {
        self.current_namespace.clone()
    }

    /// The position selected.
    pub fn get_selected_namespace_idx(&self) -> (r: usize)
        ensures
            r == self.position(),
    {
        self.namespace_state.selected()
    }

    /// Selects the first namespace and shows it.
    pub fn reset_context(&mut self)
        ensures
            final(self).offered() == old(self).offered(),
            final(self).position() == 0,
            final(self).current() == old(self).offered()[0],
            final(self).position() as int == stepped_after(
                old(self).position() as int,
                old(self).offered().len() as int,
                seq![NamespaceMove::Reset],
            ),
            (final(self).position() as int) < final(self).offered().len(),
    {
        proof {
            use_type_invariant(&*self);
            lemma_one_step(self.namespace_state.selected as int, self.namespaces@.len() as int, NamespaceMove::Reset);
        }
        self.namespace_state = NamespaceState { selected: 0 };
        assert(strs(self.namespaces@)[0] == self.namespaces@[0]@);
        self.current_namespace = self.namespaces[0].clone();
    }

    /// Offers the namespaces for the given ones; the selection and the
    /// namespace shown stay.
    pub fn update_namespaces(&mut self, new_namespaces: Vec<String>)
        ensures
            final(self).offered() == namespace_choices(strs(new_namespaces@)),
            final(self).position() == old(self).position(),
            final(self).current() == old(self).current(),
    {
        proof {
            law_namespace_choices(strs(new_namespaces@));
        }
        let filtered = sorted_namespaces(&new_namespaces);
        assert(strs(filtered@).len() == filtered@.len());
        self.namespaces = filtered;
    }

    /// Selects the next namespace, back to the first from the last, and
    /// shows it.
    pub fn next_namespace(&mut self)
        ensures
            final(self).offered() == old(self).offered(),
            final(self).position() == step_next(old(self).position() as int, old(self).offered().len() as int),
            final(self).current() == namespace_at(old(self).offered(), final(self).position() as int),
            final(self).position() as int == stepped_after(
                old(self).position() as int,
                old(self).offered().len() as int,
                seq![NamespaceMove::Next],
            ),
            (final(self).position() as int) < final(self).offered().len(),
    {
        proof {
            use_type_invariant(&*self);
            lemma_one_step(self.namespace_state.selected as int, self.namespaces@.len() as int, NamespaceMove::Next);
        }
        let i = self.namespace_state.selected();
        let i = if i >= self.namespaces.len() - 1 {
            0
        } else {
            i + 1
        };
        self.namespace_state = NamespaceState { selected: i };
        self.current_namespace = self.namespace_or_default(i);
    }

    /// Selects the previous namespace, the last one from the first, and
    /// shows it.
    pub fn previous_namespace(&mut self)
        ensures
            final(self).offered() == old(self).offered(),
            final(self).position() == step_previous(
                old(self).position() as int,
                old(self).offered().len() as int,
            ),
            final(self).current() == namespace_at(old(self).offered(), final(self).position() as int),
            final(self).position() as int == stepped_after(
                old(self).position() as int,
                old(self).offered().len() as int,
                seq![NamespaceMove::Previous],
            ),
            (old(self).position() as int) < old(self).offered().len()
                ==> (final(self).position() as int) < final(self).offered().len(),
    {
        proof {
            use_type_invariant(&*self);
            lemma_one_step(self.namespace_state.selected as int, self.namespaces@.len() as int, NamespaceMove::Previous);
        }
        let i = self.namespace_state.selected();
        let i = if i == 0 {
            self.namespaces.len() - 1
        } else {
            i - 1
        };
        self.namespace_state = NamespaceState { selected: i };
        self.current_namespace = self.namespace_or_default(i);
    }

    /// The namespace at position `i`, or `"All"` past the end.
    fn namespace_or_default(&self, i: usize) -> (r: String)
        ensures
            r@ == namespace_at(self.offered(), i as int),
    {
        if i < self.namespaces.len() {
            assert(strs(self.namespaces@)[i as int] == self.namespaces@[i as int]@);
            self.namespaces[i].clone()
        } else {
            own("All")
        }
    }
}

} // verus!
