//! The widgets whose content the screens keep: the popup.
pub mod popup;
