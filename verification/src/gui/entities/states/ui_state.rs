//! What the interface shows: the screen, the size class and the popups.
use vstd::prelude::*;
use crate::gui::entities::terminal::TerminalSize;

verus! {

/// The screen shown.
#[derive(Clone, Copy, Debug, Default, PartialEq, Eq, Structural)]
pub enum ViewMode {
    #[default]
    Main,
    Insert,
    Edit,
}

impl ViewMode {
    /// The name of the screen.
    pub fn name(&self) -> (r: &'static str)
        ensures
            *self == ViewMode::Main ==> r@ == "Main"@,
            *self == ViewMode::Insert ==> r@ == "Insert"@,
            *self == ViewMode::Edit ==> r@ == "Edit"@,
    {
        match self {
            ViewMode::Main => "Main",
            ViewMode::Insert => "Insert",
            ViewMode::Edit => "Edit",
        }
    }
}

/// What the interface shows.
#[derive(Clone, Copy, Debug, PartialEq, Eq, Structural)]
pub struct UiState {
    pub view_mode: ViewMode,
    pub screen_size: TerminalSize,
    pub show_popup: bool,
    pub show_help: bool,
    pub querybox_focus: bool,
}

impl UiState {
    /// The screen shown.
    pub open spec fn mode(&self) -> ViewMode {
        self.view_mode
    }

    /// The size class.
    pub open spec fn size(&self) -> TerminalSize {
        self.screen_size
    }

    /// Whether a popup is shown.
    pub open spec fn popup_shown(&self) -> bool {
        self.show_popup
    }

    /// Whether the help is shown.
    pub open spec fn help_shown(&self) -> bool {
        self.show_help
    }

    /// Whether the query box has the focus.
    pub open spec fn querybox_focused(&self) -> bool {
        self.querybox_focus
    }

    /// The main screen at the given size, with nothing over it.
    pub fn new(screen_size: TerminalSize) -> (r: UiState)
        ensures
            r.mode() == ViewMode::Main,
            r.size() == screen_size,
            !r.popup_shown() && !r.help_shown() && !r.querybox_focused(),
    {
        UiState {
            view_mode: ViewMode::Main,
            screen_size,
            show_popup: false,
            show_help: false,
            querybox_focus: false,
        }
    }

    /// Whether the query box has the focus.
    pub fn querybox_focus(&self) -> (r: bool)
        ensures
            r == self.querybox_focused(),
    {
        self.querybox_focus
    }

    /// Gives or takes the focus of the query box.
    pub fn set_querybox_focus(&mut self, focus: bool)
        ensures
            *final(self) == (UiState { querybox_focus: focus, ..*old(self) }),
    {
        self.querybox_focus = focus;
    }

    /// The screen shown.
    pub fn view_mode(&self) -> (r: ViewMode)
        ensures
            r == self.mode(),
    {
        self.view_mode
    }

    /// Shows a screen.
    pub fn set_view_mode(&mut self, view_mode: ViewMode)
        ensures
            *final(self) == (UiState { view_mode, ..*old(self) }),
    {
        self.view_mode = view_mode;
    }

    /// The size class.
    pub fn screen_size(&self) -> (r: TerminalSize)
        ensures
            r == self.size(),
    {
        self.screen_size
    }

    /// Sets the size class.
    pub fn set_screen_size(&mut self, screen_size: TerminalSize)
        ensures
            *final(self) == (UiState { screen_size, ..*old(self) }),
    {
        self.screen_size = screen_size;
    }

    /// Whether a popup is shown.
    pub fn show_popup(&self) -> (r: bool)
        ensures
            r == self.popup_shown(),
    {
        self.show_popup
    }

    /// Shows or hides the popup.
    pub fn set_show_popup(&mut self, should_show: bool)
        ensures
            *final(self) == (UiState { show_popup: should_show, ..*old(self) }),
    {
        self.show_popup = should_show;
    }

    /// Whether the help is shown.
    pub fn show_help(&self) -> (r: bool)
        ensures
            r == self.help_shown(),
    {
        self.show_help
    }

    /// Shows or hides the help.
    pub fn set_show_help(&mut self, should_show: bool)
        ensures
            *final(self) == (UiState { show_help: should_show, ..*old(self) }),
    {
        self.show_help = should_show;
    }
}

} // verus!
