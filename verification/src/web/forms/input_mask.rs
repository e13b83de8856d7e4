//! InputMask: an input that follows a mask.
use vstd::prelude::*;
use crate::signal::Signal;
use crate::web::Handler;

verus! {

/// Props for the InputMask component.
pub struct InputMaskProps {
    pub mask: String,
    /// A signal holding the input's text.
    pub value: Option<Signal>,
    pub placeholder: Option<String>,
    pub disabled: bool,
    pub on_change: Option<Box<dyn Handler<String>>>,
    pub class: Option<String>,
}

impl Default for InputMaskProps {
    fn default() -> (r: Self)
        ensures
            r.mask@.len() == 0,
            r.value is None,
            r.placeholder is None,
            !r.disabled,
            r.on_change is None,
            r.class is None,
    {
        InputMaskProps { mask: String::new(), value: None, placeholder: None, disabled: false, on_change: None, class: None }
    }
}

/// The InputMask component.
pub struct InputMask;

} // verus!
