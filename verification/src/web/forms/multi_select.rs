//! MultiSelect: choosing several options.
use vstd::prelude::*;
use crate::runtime::{signal, Runtime};
use crate::signal::Signal;
use crate::web::Handler;

verus! {

/// Props for the MultiSelect component.
pub struct MultiSelectProps {
    pub options: Vec<String>,
    /// A signal holding the chosen options.
    pub values: Signal,
    pub placeholder: Option<String>,
    pub disabled: bool,
    pub searchable: bool,
    pub creatable: bool,
    pub max_selections: Option<usize>,
    pub on_change: Option<Box<dyn Handler<Vec<String>>>>,
    pub class: Option<String>,
}

impl MultiSelectProps {
    /// The default props, with a new `values` signal in `rt` that holds no
    /// option.
    pub fn new_in(rt: &mut Runtime<Vec<String>>) -> (r: Self)
        requires
            old(rt).wf(),
        ensures
            final(rt).wf(),
            r.values.id() == old(rt).store().len(),
            final(rt).store().len() == old(rt).store().len() + 1,
            final(rt).store().value(r.values)@.len() == 0,
            final(rt).same_bookkeeping(*old(rt)),
            r.options@.len() == 0,
            r.placeholder is None,
            !r.disabled,
            r.searchable,
            !r.creatable,
            r.max_selections is None,
            r.on_change is None,
            r.class is None,
    {
        let values = signal(rt, Vec::new());
        MultiSelectProps {
            options: Vec::new(),
            values,
            placeholder: None,
            disabled: false,
            searchable: true,
            creatable: false,
            max_selections: None,
            on_change: None,
            class: None,
        }
    }
}

/// The MultiSelect component.
pub struct MultiSelect;

} // verus!
