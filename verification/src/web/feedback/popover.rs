//! Popover: a popup opened from its trigger.
use vstd::prelude::*;

verus! {

/// Where the popup sits relative to its trigger.
#[derive(Clone, Copy, PartialEq, Eq, Debug, Structural)]
pub enum PopoverPosition {
    Top,
    Bottom,
    Left,
    Right,
    TopStart,
    TopEnd,
    BottomStart,
    BottomEnd,
}

impl Default for PopoverPosition {
    fn default() -> (r: Self)
        ensures
            r == PopoverPosition::Bottom,
    {
        PopoverPosition::Bottom
    }
}

/// What opens the popup.
#[derive(Clone, Copy, PartialEq, Eq, Debug, Structural)]
pub enum PopoverTrigger {
    Click,
    Hover,
    Focus,
}

impl Default for PopoverTrigger {
    fn default() -> (r: Self)
        ensures
            r == PopoverTrigger::Click,
    {
        PopoverTrigger::Click
    }
}

/// The Popover component.
pub struct Popover;

} // verus!
