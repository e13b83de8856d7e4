//! Drawer: a panel that slides in from an edge.
use vstd::prelude::*;
use crate::runtime::{signal, Runtime};
use crate::signal::Signal;
use crate::web::Action;

verus! {

/// The edge the drawer slides from.
#[derive(Clone, Copy, PartialEq, Eq, Debug, Structural)]
pub enum DrawerPosition {
    Left,
    Right,
    Top,
    Bottom,
}

impl Default for DrawerPosition {
    fn default() -> (r: Self)
        ensures
            r == DrawerPosition::Left,
    {
        DrawerPosition::Left
    }
}

/// Props for the Drawer component.
pub struct DrawerProps {
    /// A signal holding whether the drawer is open.
    pub open: Signal,
    pub position: DrawerPosition,
    pub title: Option<String>,
    pub closable: bool,
    pub close_on_overlay: bool,
    pub width: Option<String>,
    pub on_close: Option<Box<dyn Action>>,
    pub class: Option<String>,
}

impl DrawerProps {
    /// The default props, with a new `open` signal in `rt` that holds false.
    pub fn new_in(rt: &mut Runtime<bool>) -> (r: Self)
        requires
            old(rt).wf(),
        ensures
            final(rt).wf(),
            r.open.id() == old(rt).store().len(),
            final(rt).store().len() == old(rt).store().len() + 1,
            !final(rt).store().value(r.open),
            final(rt).same_bookkeeping(*old(rt)),
            r.position == DrawerPosition::Left,
            r.title is None,
            r.closable,
            r.close_on_overlay,
            r.width is None,
            r.on_close is None,
            r.class is None,
    {
        let open = signal(rt, false);
        DrawerProps {
            open,
            position: DrawerPosition::Left,
            title: None,
            closable: true,
            close_on_overlay: true,
            width: None,
            on_close: None,
            class: None,
        }
    }
}

/// The Drawer component.
pub struct Drawer;

} // verus!
