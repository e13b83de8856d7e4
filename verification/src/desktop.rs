//! Desktop runtime foundation: component-backed windows, scope disposal
//! on window close, shared context and application events.
use vstd::prelude::*;

pub mod component;
pub mod context;
pub mod disposal;
pub mod event;

verus! {

/// Initialize the desktop runtime. Call once from the application entry point.
pub fn init() {
    disposal::init_event_listeners();
}

} // verus!
