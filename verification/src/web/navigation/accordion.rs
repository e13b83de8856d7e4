//! Accordion: collapsible content panels.
use vstd::prelude::*;

verus! {

/// Props for the Accordion component.
#[derive(Clone)]
pub struct AccordionProps {
    /// Allow multiple panels to be open simultaneously
    pub allow_multiple: bool,
    /// Initially expanded panel indices
    pub default_expanded: Vec<usize>,
    /// Additional CSS classes
    pub class: Option<String>,
}

impl Default for AccordionProps {
    fn default() -> (r: Self)
        ensures
            !r.allow_multiple,
            r.default_expanded@.len() == 0,
            r.class is None,
    {
        AccordionProps { allow_multiple: false, default_expanded: Vec::new(), class: None }
    }
}

/// A single accordion item.
#[derive(Clone)]
pub struct AccordionItem {
    pub title: String,
    pub content: String,
    pub disabled: bool,
    pub icon: Option<String>,
}

/// The Accordion component.
pub struct Accordion;

} // verus!
