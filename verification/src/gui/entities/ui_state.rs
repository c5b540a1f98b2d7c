//! What the interface shows, in the layout where screens read it directly.
use vstd::prelude::*;
use crate::gui::entities::states::ui_state::ViewMode;
use crate::gui::entities::terminal::TerminalSize;

verus! {

/// What the interface shows.
#[derive(Clone, Copy, Debug, PartialEq, Eq, Structural)]
pub struct UiState {
    pub view_mode: ViewMode,
    pub size: TerminalSize,
    pub show_popup: bool,
    pub show_help: bool,
    pub query_box_active: bool,
}

impl UiState {
    /// The main screen at the given size, with nothing over it.
    pub fn new(size: TerminalSize) -> (r: UiState)
        ensures
            r == (UiState {
                view_mode: ViewMode::Main,
                size,
                show_popup: false,
                show_help: false,
                query_box_active: false,
            }),
    {
        UiState {
            view_mode: ViewMode::Main,
            size,
            show_popup: false,
            show_help: false,
            query_box_active: false,
        }
    }
}

} // verus!
