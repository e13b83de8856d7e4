//! Select: choosing one option from a list.
use vstd::prelude::*;
use crate::signal::Signal;
use crate::web::Handler;

verus! {

/// An option of a select.
#[derive(Clone)]
pub struct SelectOption {
    pub value: String,
    pub label: String,
    pub disabled: bool,
}

/// Props for the Select component.
pub struct SelectProps {
    pub options: Vec<SelectOption>,
    /// A signal holding the chosen value.
    pub value: Option<Signal>,
    pub placeholder: Option<String>,
    pub disabled: bool,
    pub multiple: bool,
    pub searchable: bool,
    pub clearable: bool,
    pub on_change: Option<Box<dyn Handler<String>>>,
    pub class: Option<String>,
}

impl Default for SelectProps {
    fn default() -> (r: Self)
        ensures
            r.options@.len() == 0,
            r.value is None,
            r.placeholder is None,
            !r.disabled,
            !r.multiple,
            !r.searchable,
            !r.clearable,
            r.on_change is None,
            r.class is None,
    {
        SelectProps {
            options: Vec::new(),
            value: None,
            placeholder: None,
            disabled: false,
            multiple: false,
            searchable: false,
            clearable: false,
            on_change: None,
            class: None,
        }
    }
}

/// The Select component.
pub struct Select;

} // verus!
