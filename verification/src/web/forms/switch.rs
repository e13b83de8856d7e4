//! Switch: a binary on and off control.
use vstd::prelude::*;
use crate::runtime::{signal, Runtime};
use crate::signal::Signal;
use crate::web::{class_names, push_extra, spaced, strs, with_extra, Handler};

verus! {

/// Switch size.
#[derive(Clone, Copy, PartialEq, Eq, Debug, Structural)]
pub enum SwitchSize {
    Sm,
    Md,
    Lg,
}

impl Default for SwitchSize {
    fn default() -> (r: Self)
        ensures
            r == SwitchSize::Md,
    {
        SwitchSize::Md
    }
}

impl SwitchSize {
    /// The size class.
    pub open spec fn class_text(self) -> Seq<char> {
        match self {
            SwitchSize::Sm => "domius-switch-sm"@,
            SwitchSize::Md => "domius-switch-md"@,
            SwitchSize::Lg => "domius-switch-lg"@,
        }
    }

    /// The size class.
    pub fn as_class(self) -> (r: &'static str)
        ensures
            r@ == self.class_text(),
    {
        match self {
            SwitchSize::Sm => "domius-switch-sm",
            SwitchSize::Md => "domius-switch-md",
            SwitchSize::Lg => "domius-switch-lg",
        }
    }
}

/// Props for the Switch component.
pub struct SwitchProps {
    /// A signal holding whether the switch is on.
    pub checked: Signal,
    pub label: Option<String>,
    pub disabled: bool,
    pub size: SwitchSize,
    pub on_change: Option<Box<dyn Handler<bool>>>,
    pub class: Option<String>,
}

impl SwitchProps {
    /// The default props, with a new `checked` signal in `rt` that holds false.
    pub fn new_in(rt: &mut Runtime<bool>) -> (r: Self)
        requires
            old(rt).wf(),
        ensures
            final(rt).wf(),
            r.checked.id() == old(rt).store().len(),
            final(rt).store().len() == old(rt).store().len() + 1,
            !final(rt).store().value(r.checked),
            final(rt).same_bookkeeping(*old(rt)),
            r.label is None,
            !r.disabled,
            r.size == SwitchSize::Md,
            r.on_change is None,
            r.class is None,
    {
        let checked = signal(rt, false);
        SwitchProps { checked, label: None, disabled: false, size: SwitchSize::Md, on_change: None, class: None }
    }
}

/// The Switch component.
pub struct Switch;

/// The base classes of a switch.
pub open spec fn switch_class_list(size: SwitchSize, disabled: bool) -> Seq<Seq<char>> {
    let base = seq!["domius-switch"@, size.class_text()];
    if disabled { base.push("domius-switch-disabled"@) } else { base }
}

/// Class names of a switch.
pub fn switch_classes(size: SwitchSize, disabled: bool, class: &Option<String>) -> (r: String)
    ensures
        r@ == spaced(with_extra(switch_class_list(size, disabled), *class)),
{
    let mut parts: Vec<String> = Vec::new();
    parts.push("domius-switch".to_owned());
    parts.push(size.as_class().to_owned());
    if disabled {
        parts.push("domius-switch-disabled".to_owned());
    }
    assert(strs(parts@) =~= switch_class_list(size, disabled));
    push_extra(&mut parts, class);
    class_names(&parts)
}

/// Flip the switch: store the opposite of its value and return it.
pub fn toggle(rt: &mut Runtime<bool>, checked: Signal) -> (now: bool)
    requires
        old(rt).wf(),
        old(rt).store().holds(checked),
    ensures
        final(rt).wf(),
        final(rt).same_bookkeeping(*old(rt)),
        now == !old(rt).store().value(checked),
        old(rt).store().pending().len() == 0 && old(rt).store().subscribers(checked).len() == 0
            ==> final(rt).store().value(checked) == now,
{
    let now = !*rt.signals().get_untracked(checked);
    rt.set(checked, now);
    now
}

} // verus!
