//! Components that give feedback.
pub mod infinite_scroll;
pub mod modal;
pub mod popover;
pub mod progress;
pub mod skeleton;
pub mod spinner;
pub mod toast;
pub mod tooltip;
