//! The state of the Vi keybindings.
use vstd::prelude::*;

verus! {

/// The Vi mode.
#[derive(Clone, Copy, Debug, Default, PartialEq, Eq, Structural)]
pub enum ViMode {
    #[default]
    Normal,
    Insert,
}

impl ViMode {
    /// The label shown for the mode.
    pub fn label(&self) -> (r: &'static str)
        ensures
            *self == ViMode::Normal ==> r@ == "--NORMAL--"@,
            *self == ViMode::Insert ==> r@ == "--INSERT--"@,
    {
        match self {
            ViMode::Normal => "--NORMAL--",
            ViMode::Insert => "--INSERT--",
        }
    }
}

/// The state after changing the mode to each of `modes` in turn, as
/// `change_mode_to` does.
pub open spec fn after_changes(s: ViState, modes: Seq<ViMode>) -> ViState
    decreases modes.len(),
{
    if modes.len() == 0 {
        s
    } else {
        ViState { mode: modes.last(), ..after_changes(s, modes.drop_last()) }
    }
}

/// Taking one more mode after a sequence of modes is taking the longer
/// sequence.
pub proof fn lemma_after_one_more(s: ViState, modes: Seq<ViMode>, m: ViMode)
    ensures
        after_changes(after_changes(s, modes), seq![m]) == after_changes(s, modes.push(m)),
{
    let one = seq![m];
    assert(one.drop_last() =~= Seq::<ViMode>::empty());
    assert(one.last() == m);
    assert(after_changes(after_changes(s, modes), Seq::<ViMode>::empty()) == after_changes(s, modes));
    assert(modes.push(m).drop_last() =~= modes);
    assert(modes.push(m).last() == m);
}

/// Whatever modes are taken after `init(enabled)`, the keybindings flag
/// stays as set at the start, and the mode is the last one taken, or the
/// normal mode when none was.
pub proof fn law_vi_state_after_changes(enabled: bool, modes: Seq<ViMode>)
    ensures
        after_changes(ViState { mode: ViMode::Normal, enabled }, modes).enabled == enabled,
        after_changes(ViState { mode: ViMode::Normal, enabled }, modes).mode == (if modes.len() == 0 {
            ViMode::Normal
        } else {
            modes.last()
        }),
    decreases modes.len(),
{
    if modes.len() > 0 {
        law_vi_state_after_changes(enabled, modes.drop_last());
    }
}

/// The Vi mode, and whether the keybindings are on.
#[derive(Clone, Copy, Debug, Default, PartialEq, Eq, Structural)]
pub struct ViState {
    pub mode: ViMode,
    pub enabled: bool,
}

impl ViState {
    /// The normal mode, with the keybindings on or off.
    pub fn init(enabled: bool) -> (r: ViState)
        ensures
            r == (ViState { mode: ViMode::Normal, enabled }),
    {
        ViState { mode: ViMode::Normal, enabled }
    }

    /// Changes the mode.
    pub fn change_mode_to(&mut self, mode: ViMode)
        ensures
            *final(self) == (ViState { mode, ..*old(self) }),
            *final(self) == after_changes(*old(self), seq![mode]),
    {
        let ghost one = seq![mode];
        assert(one.drop_last() =~= Seq::<ViMode>::empty());
        assert(one.last() == mode);
        assert(after_changes(*self, Seq::<ViMode>::empty()) == *self);
        self.mode = mode;
    }

    /// The mode.
    pub fn mode(&self) -> (r: &ViMode)
        ensures
            *r == self.mode,
    {
        &self.mode
    }

    /// Whether the keybindings are on.
    pub fn enabled(&self) -> (r: bool)
        ensures
            r == self.enabled,
    {
        self.enabled
    }
}

} // verus!
