//! Autocomplete: a text input that suggests options.
use vstd::prelude::*;
use crate::signal::Signal;
use crate::web::Handler;

verus! {

/// Props for the Autocomplete component.
pub struct AutocompleteProps {
    pub options: Vec<String>,
    /// A signal holding the input's text.
    pub value: Option<Signal>,
    pub placeholder: Option<String>,
    pub disabled: bool,
    pub clearable: bool,
    pub highlight_matches: bool,
    pub on_select: Option<Box<dyn Handler<String>>>,
    pub on_input: Option<Box<dyn Handler<String>>>,
    pub class: Option<String>,
}

impl Default for AutocompleteProps {
    fn default() -> (r: Self)
        ensures
            r.options@.len() == 0,
            r.value is None,
            r.placeholder is None,
            !r.disabled,
            !r.clearable,
            r.highlight_matches,
            r.on_select is None,
            r.on_input is None,
            r.class is None,
    {
        AutocompleteProps {
            options: Vec::new(),
            value: None,
            placeholder: None,
            disabled: false,
            clearable: false,
            highlight_matches: true,
            on_select: None,
            on_input: None,
            class: None,
        }
    }
}

/// The Autocomplete component.
pub struct Autocomplete;

} // verus!
