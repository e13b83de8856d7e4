//! Modal: a dialog over the page.
use vstd::prelude::*;
use crate::runtime::{signal, Runtime};
use crate::signal::Signal;
use crate::web::{class_names, push_extra, spaced, strs, with_extra, Action};

verus! {

/// Modal size.
#[derive(Clone, Copy, PartialEq, Eq, Debug, Structural)]
pub enum ModalSize {
    Sm,
    Md,
    Lg,
    Xl,
    Full,
}

impl Default for ModalSize {
    fn default() -> (r: Self)
        ensures
            r == ModalSize::Md,
    {
        ModalSize::Md
    }
}

impl ModalSize {
    /// The size class.
    pub open spec fn class_text(self) -> Seq<char> {
        match self {
            ModalSize::Sm => "domius-modal-sm"@,
            ModalSize::Md => "domius-modal-md"@,
            ModalSize::Lg => "domius-modal-lg"@,
            ModalSize::Xl => "domius-modal-xl"@,
            ModalSize::Full => "domius-modal-full"@,
        }
    }

    /// The size class.
    pub fn as_class(self) -> (r: &'static str)
        ensures
            r@ == self.class_text(),
    {
        match self {
            ModalSize::Sm => "domius-modal-sm",
            ModalSize::Md => "domius-modal-md",
            ModalSize::Lg => "domius-modal-lg",
            ModalSize::Xl => "domius-modal-xl",
            ModalSize::Full => "domius-modal-full",
        }
    }
}

/// Props for the Modal component.
pub struct ModalProps {
    /// A signal holding whether the dialog is open.
    pub open: Signal,
    pub title: Option<String>,
    pub content: String,
    pub closable: bool,
    pub close_on_overlay: bool,
    pub close_on_escape: bool,
    pub size: ModalSize,
    pub show_footer: bool,
    pub confirm_text: Option<String>,
    pub cancel_text: Option<String>,
    pub on_close: Option<Box<dyn Action>>,
    pub on_confirm: Option<Box<dyn Action>>,
    pub class: Option<String>,
}

impl ModalProps {
    /// The default props, with a new `open` signal in `rt` that holds false.
    pub fn new_in(rt: &mut Runtime<bool>) -> (r: Self)
        requires
            old(rt).wf(),
        ensures
            final(rt).wf(),
            r.open.id() == old(rt).store().len(),
            final(rt).store().len() == old(rt).store().len() + 1,
            !final(rt).store().value(r.open),
            final(rt).same_bookkeeping(*old(rt)),
            r.title is None,
            r.content@.len() == 0,
            r.closable,
            r.close_on_overlay,
            r.close_on_escape,
            r.size == ModalSize::Md,
            !r.show_footer,
            r.confirm_text is Some && r.confirm_text.unwrap()@ == "OK"@,
            r.cancel_text is Some && r.cancel_text.unwrap()@ == "Cancel"@,
            r.on_close is None,
            r.on_confirm is None,
            r.class is None,
    {
        let open = signal(rt, false);
        ModalProps {
            open,
            title: None,
            content: String::new(),
            closable: true,
            close_on_overlay: true,
            close_on_escape: true,
            size: ModalSize::Md,
            show_footer: false,
            confirm_text: Some("OK".to_owned()),
            cancel_text: Some("Cancel".to_owned()),
            on_close: None,
            on_confirm: None,
            class: None,
        }
    }
}

/// The Modal component.
pub struct Modal;

/// Class names of the dialog.
pub fn modal_classes(size: ModalSize, class: &Option<String>) -> (r: String)
    ensures
        r@ == spaced(with_extra(seq!["domius-modal"@, size.class_text()], *class)),
{
    let mut parts: Vec<String> = Vec::new();
    parts.push("domius-modal".to_owned());
    parts.push(size.as_class().to_owned());
    assert(strs(parts@) =~= seq!["domius-modal"@, size.class_text()]);
    push_extra(&mut parts, class);
    class_names(&parts)
}

/// Whether the dialog has a header: it has a title or a close button.
pub fn has_header(props: &ModalProps) -> (r: bool)
    ensures
        r == (props.title is Some || props.closable),
{
    props.title.is_some() || props.closable
}

/// Whether a click on the overlay closes the dialog: it must land on the
/// backdrop itself, the dialog must allow it and have a close callback.
pub fn overlay_click_closes(close_on_overlay: bool, has_on_close: bool, on_backdrop: bool) -> (r: bool)
    ensures
        r == (close_on_overlay && has_on_close && on_backdrop),
{
    close_on_overlay && has_on_close && on_backdrop
}

} // verus!
