//! RichTextEditor: editing formatted text.
use vstd::prelude::*;
use crate::runtime::{signal, Runtime};
use crate::signal::Signal;
use crate::web::Handler;

verus! {

/// Props for the RichTextEditor component.
pub struct RichTextEditorProps {
    /// A signal holding the edited text.
    pub value: Signal,
    pub placeholder: Option<String>,
    pub disabled: bool,
    pub toolbar_options: Vec<String>,
    pub height: Option<String>,
    pub on_change: Option<Box<dyn Handler<String>>>,
    pub class: Option<String>,
}

impl RichTextEditorProps {
    /// The default props, with a new `value` signal in `rt` that holds an
    /// empty text.
    pub fn new_in(rt: &mut Runtime<String>) -> (r: Self)
        requires
            old(rt).wf(),
        ensures
            final(rt).wf(),
            r.value.id() == old(rt).store().len(),
            final(rt).store().len() == old(rt).store().len() + 1,
            final(rt).store().value(r.value)@.len() == 0,
            final(rt).same_bookkeeping(*old(rt)),
            r.placeholder is None,
            !r.disabled,
            r.toolbar_options@.len() == 3,
            r.toolbar_options@[0]@ == "bold"@,
            r.toolbar_options@[1]@ == "italic"@,
            r.toolbar_options@[2]@ == "underline"@,
            r.height is None,
            r.on_change is None,
            r.class is None,
    {
        let value = signal(rt, String::new());
        let mut toolbar_options: Vec<String> = Vec::new();
        toolbar_options.push("bold".to_owned());
        toolbar_options.push("italic".to_owned());
        toolbar_options.push("underline".to_owned());
        RichTextEditorProps {
            value,
            placeholder: None,
            disabled: false,
            toolbar_options,
            height: None,
            on_change: None,
            class: None,
        }
    }
}

/// The RichTextEditor component.
pub struct RichTextEditor;

} // verus!
