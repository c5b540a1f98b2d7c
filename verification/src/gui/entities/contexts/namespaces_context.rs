//! The namespaces offered on the main screen and the one selected.
use vstd::prelude::*;
use crate::commands::{all_namespace, law_namespace_choices, namespace_choices, sorted_namespaces};
use crate::gui::entities::contexts::Selectable;
use crate::gui::entities::namespace_state::NamespaceState;
use crate::text::{own, strs};

verus! {

/// The namespace that holds every command.
pub const DEFAULT_NAMESPACE: &'static str = "All";

/// The namespaces offered, the position selected and the namespace shown.
pub struct NamespacesContext {
    namespaces: Vec<String>,
    state: NamespaceState,
    current_namespace: String,
}

impl NamespacesContext {
    /// There is always a namespace to offer, and the position selected can
    /// always move one further.
    #[verifier::type_invariant]
    spec fn well_formed(&self) -> bool {
        &&& self.namespaces@.len() >= 1
        &&& self.state.selected < usize::MAX
    }

    /// The namespaces offered.
    pub closed spec fn offered(&self) -> Seq<Seq<char>> {
        strs(self.namespaces@)
    }

    /// The position selected.
    pub closed spec fn position(&self) -> usize {
        self.state.selected
    }

    /// The namespace shown.
    pub closed spec fn current(&self) -> Seq<char> {
        self.current_namespace@
    }

    /// The namespaces offered for the given ones: `"All"` and each of them
    /// once, in ascending order; the first is selected.
    pub fn new(namespaces: Vec<String>) -> (r: NamespacesContext)
        ensures
            r.offered() == namespace_choices(strs(namespaces@)),
            r.position() == 0,
            r.current() == namespace_choices(strs(namespaces@))[0],
            (r.position() as int) < r.offered().len(),
    {
        let filtered = Self::filter_namespaces(namespaces);
        proof {
            law_namespace_choices(strs(namespaces@));
        }
        assert(strs(filtered@).len() == filtered@.len());
        let current = filtered[0].clone();
        assert(strs(filtered@)[0] == filtered@[0]@);
        NamespacesContext { namespaces: filtered, state: NamespaceState { selected: 0 }, current_namespace: current }
    }

    /// The namespaces offered.
    pub fn namespaces(&self) -> (r: &Vec<String>)
        ensures
            strs(r@) == self.offered(),
    {
        &self.namespaces
    }

    /// The namespace shown.
    pub fn current_namespace(&self) -> (r: String)
        ensures
            r@ == self.current(),
    {
        self.current_namespace.clone()
    }

    /// The position selected.
    pub fn get_selected_namespace_idx(&self) -> (r: usize)
        ensures
            r == self.position(),
    {
        self.state.selected()
    }

    /// Selects the first namespace and shows it.
    pub fn reset_context(&mut self)
        ensures
            final(self).offered() == old(self).offered(),
            final(self).position() == 0,
            final(self).current() == old(self).offered()[0],
            final(self).position() as int == wrapped_after(
                old(self).position() as int,
                old(self).offered().len() as int,
                seq![NamespaceMove::Reset],
            ),
            (final(self).position() as int) < final(self).offered().len(),
    {
        proof {
            lemma_one_move(old(self).position() as int, old(self).offered().len() as int, NamespaceMove::Reset);
        }
        proof {
            use_type_invariant(&*self);
        }
        self.state = NamespaceState { selected: 0 };
        let namespace = self.namespaces[0].clone();
        assert(strs(self.namespaces@)[0] == self.namespaces@[0]@);
        self.current_namespace = namespace;
    }

    /// Offers the namespaces for the given ones; the selection and the
    /// namespace shown stay.
    pub fn update_namespaces(&mut self, new_namespaces: Vec<String>)
        ensures
            final(self).offered() == namespace_choices(strs(new_namespaces@)),
            final(self).position() == old(self).position(),
            final(self).current() == old(self).current(),
    {
        proof {
            use_type_invariant(&*self);
            law_namespace_choices(strs(new_namespaces@));
        }
        let filtered = Self::filter_namespaces(new_namespaces);
        assert(strs(filtered@).len() == filtered@.len());
        self.namespaces = filtered;
    }

    /// `"All"` and the given namespaces, each once, in ascending order.
    pub fn filter_namespaces(namespaces: Vec<String>) -> (r: Vec<String>)
        ensures
            strs(r@) == namespace_choices(strs(namespaces@)),
    {
        sorted_namespaces(&namespaces)
    }
}

/// The position after `i` in a list of `n`, wrapping.
pub open spec fn wrap_next(i: int, n: int) -> int {
    (i + 1) % n
}

/// The position before `i` in a list of `n`, wrapping.
pub open spec fn wrap_previous(i: int, n: int) -> int {
    (i + n - 1) % n
}

/// Moving one place forward and one back, or back and then forward, in a
/// list of `n` returns to the place left.
pub proof fn law_wrap_round_trip(i: int, n: int)
    requires
        0 <= i < n,
    ensures
        wrap_previous(wrap_next(i, n), n) == i,
        wrap_next(wrap_previous(i, n), n) == i,
        0 <= wrap_next(i, n) < n,
        0 <= wrap_previous(i, n) < n,
{
    vstd::arithmetic::div_mod::lemma_small_mod(i as nat, n as nat);
    if i + 1 < n {
        vstd::arithmetic::div_mod::lemma_small_mod((i + 1) as nat, n as nat);
        vstd::arithmetic::div_mod::lemma_mod_add_multiples_vanish(i, n);
    } else {
        vstd::arithmetic::div_mod::lemma_mod_self_0(n);
        vstd::arithmetic::div_mod::lemma_small_mod((n - 1) as nat, n as nat);
    }
    if i > 0 {
        vstd::arithmetic::div_mod::lemma_mod_add_multiples_vanish(i - 1, n);
        vstd::arithmetic::div_mod::lemma_small_mod((i - 1) as nat, n as nat);
    } else {
        vstd::arithmetic::div_mod::lemma_small_mod((n - 1) as nat, n as nat);
        vstd::arithmetic::div_mod::lemma_mod_self_0(n);
    }
}

/// A move of the namespace selection.
#[derive(Clone, Copy, Debug, PartialEq, Eq, Structural)]
pub enum NamespaceMove {
    /// `next`.
    Next,
    /// `previous`.
    Previous,
    /// `reset_context`.
    Reset,
}

/// The position after the moves, in turn, from position `i` among `n`.
pub open spec fn wrapped_after(i: int, n: int, moves: Seq<NamespaceMove>) -> int
    decreases moves.len(),
{
    if moves.len() == 0 {
        i
    } else {
        let j = wrapped_after(i, n, moves.drop_last());
        match moves.last() {
            NamespaceMove::Next => wrap_next(j, n),
            NamespaceMove::Previous => wrap_previous(j, n),
            NamespaceMove::Reset => 0,
        }
    }
}

/// From a position among `n` namespaces, any sequence of moves keeps the
/// position among them; `new` starts at 0.
pub proof fn law_position_stays_in_range(i: int, n: int, moves: Seq<NamespaceMove>)
    requires
        0 <= i < n,
    ensures
        0 <= wrapped_after(i, n, moves) < n,
    decreases moves.len(),
{
    if moves.len() > 0 {
        law_position_stays_in_range(i, n, moves.drop_last());
        law_wrap_round_trip(wrapped_after(i, n, moves.drop_last()), n);
    }
}

/// One move more after a sequence of moves.
proof fn lemma_one_move(i: int, n: int, m: NamespaceMove)
    ensures
        wrapped_after(i, n, seq![m]) == (match m {
            NamespaceMove::Next => wrap_next(i, n),
            NamespaceMove::Previous => wrap_previous(i, n),
            NamespaceMove::Reset => 0,
        }),
{
    let one = seq![m];
    assert(one.drop_last() =~= Seq::<NamespaceMove>::empty());
    assert(one.last() == m);
    assert(wrapped_after(i, n, Seq::<NamespaceMove>::empty()) == i);
    assert(wrapped_after(i, n, one) == (match m {
        NamespaceMove::Next => wrap_next(wrapped_after(i, n, one.drop_last()), n),
        NamespaceMove::Previous => wrap_previous(wrapped_after(i, n, one.drop_last()), n),
        NamespaceMove::Reset => 0,
    }));
}

/// The position before `i` in a list of `n`, computed without overflow.
pub fn previous_position(i: usize, n: usize) -> (r: usize)
    requires
        n > 0,
    ensures
        r as int == wrap_previous(i as int, n as int),
{
    let c = i % n;
    proof {
        vstd::arithmetic::div_mod::lemma_add_mod_noop(i as int, n - 1, n as int);
        vstd::arithmetic::div_mod::lemma_mod_bound(i as int, n as int);
        vstd::arithmetic::div_mod::lemma_mod_twice(i as int, n as int);
        vstd::arithmetic::div_mod::lemma_small_mod((n - 1) as nat, n as nat);
        if c == 0 {
            vstd::arithmetic::div_mod::lemma_small_mod((n - 1) as nat, n as nat);
        } else {
            vstd::arithmetic::div_mod::lemma_mod_add_multiples_vanish((c - 1) as int, n as int);
            vstd::arithmetic::div_mod::lemma_small_mod((c - 1) as nat, n as nat);
        }
    }
    if c == 0 {
        n - 1
    } else {
        c - 1
    }
}

impl Selectable for NamespacesContext {
    /// There are always namespaces to offer.
    open spec fn has_items(&self) -> bool {
        true
    }

    /// Selects and shows the next namespace, or the first after the last.
    fn next(&mut self)
        ensures
            final(self).offered() == old(self).offered(),
            final(self).position() == wrap_next(old(self).position() as int, old(self).offered().len() as int),
            final(self).current() == old(self).offered()[final(self).position() as int],
            final(self).position() as int == wrapped_after(
                old(self).position() as int,
                old(self).offered().len() as int,
                seq![NamespaceMove::Next],
            ),
            (final(self).position() as int) < final(self).offered().len(),
    {
        proof {
            use_type_invariant(&*self);
            lemma_one_move(self.state.selected as int, self.namespaces@.len() as int, NamespaceMove::Next);
        }
        let current = self.state.selected();
        let next = (current + 1) % self.namespaces.len();
        self.state = NamespaceState { selected: next };
        assert(strs(self.namespaces@)[next as int] == self.namespaces@[next as int]@);
        self.current_namespace = self.namespaces[next].clone();
    }

    /// Selects and shows the previous namespace, or the last before the first.
    fn previous(&mut self)
        ensures
            final(self).offered() == old(self).offered(),
            final(self).position() == wrap_previous(
                old(self).position() as int,
                old(self).offered().len() as int,
            ),
            final(self).current() == old(self).offered()[final(self).position() as int],
            final(self).position() as int == wrapped_after(
                old(self).position() as int,
                old(self).offered().len() as int,
                seq![NamespaceMove::Previous],
            ),
            (final(self).position() as int) < final(self).offered().len(),
    {
        proof {
            use_type_invariant(&*self);
            lemma_one_move(self.state.selected as int, self.namespaces@.len() as int, NamespaceMove::Previous);
        }
        let current = self.state.selected();
        let previous = previous_position(current, self.namespaces.len());
        self.state = NamespaceState { selected: previous };
        assert(strs(self.namespaces@)[previous as int] == self.namespaces@[previous as int]@);
        self.current_namespace = self.namespaces[previous].clone();
    }
}

} // verus!
