//! The size class of the terminal, which decides the layout of the form.
use vstd::prelude::*;

verus! {

/// How tall the terminal is.
#[derive(Clone, Copy, Debug, Default, PartialEq, Eq, Structural)]
pub enum TerminalSize {
    Small,
    #[default]
    Medium,
    Large,
}

/// The size class of a terminal of the given height: up to 20 rows is
/// small, up to 30 medium, more is large.
pub open spec fn size_class(height: u16) -> TerminalSize {
    if height <= 20 {
        TerminalSize::Small
    } else if height <= 30 {
        TerminalSize::Medium
    } else {
        TerminalSize::Large
    }
}

/// The size class of a terminal area of the given height.
pub fn as_terminal_size(height: u16) -> (r: TerminalSize)
    ensures
        r == size_class(height),
{
    if height <= 20 {
        TerminalSize::Small
    } else if height <= 30 {
        TerminalSize::Medium
    } else {
        TerminalSize::Large
    }
}

} // verus!
