//! Toasts: short notifications, and the manager that keeps the list of
//! toasts shown.
use vstd::prelude::*;
use crate::runtime::{signal, Runtime};
use crate::signal::Signal;
use crate::text::{decimal, push_decimal_u64, push_str};
use crate::web::{class_names, spaced, strs, Handler};

verus! {

/// Toast variant.
#[derive(Clone, Copy, PartialEq, Eq, Debug, Structural)]
pub enum ToastVariant {
    Info,
    Success,
    Warning,
    Error,
}

impl Default for ToastVariant {
    fn default() -> (r: Self)
        ensures
            r == ToastVariant::Info,
    {
        ToastVariant::Info
    }
}

impl ToastVariant {
    /// The variant's class.
    pub open spec fn class_text(self) -> Seq<char> {
        match self {
            ToastVariant::Info => "domius-toast-info"@,
            ToastVariant::Success => "domius-toast-success"@,
            ToastVariant::Warning => "domius-toast-warning"@,
            ToastVariant::Error => "domius-toast-error"@,
        }
    }

    /// The variant's class.
    pub fn as_class(&self) -> (r: &'static str)
        ensures
            r@ == self.class_text(),
    {
        match self {
            ToastVariant::Info => "domius-toast-info",
            ToastVariant::Success => "domius-toast-success",
            ToastVariant::Warning => "domius-toast-warning",
            ToastVariant::Error => "domius-toast-error",
        }
    }

    /// The variant's icon.
    pub open spec fn icon_text(self) -> Seq<char> {
        match self {
            ToastVariant::Info => "ℹ"@,
            ToastVariant::Success => "✓"@,
            ToastVariant::Warning => "⚠"@,
            ToastVariant::Error => "✕"@,
        }
    }

    /// The variant's icon.
    pub fn as_icon(&self) -> (r: &'static str)
        ensures
            r@ == self.icon_text(),
    {
        match self {
            ToastVariant::Info => "ℹ",
            ToastVariant::Success => "✓",
            ToastVariant::Warning => "⚠",
            ToastVariant::Error => "✕",
        }
    }
}

/// A single toast notification.
#[derive(Clone)]
pub struct ToastData {
    pub id: String,
    pub message: String,
    pub title: Option<String>,
    pub variant: ToastVariant,
    pub duration: Option<u64>,
    pub dismissible: bool,
}

impl ToastData {
    /// A copy of the toast.
    pub fn copy(&self) -> (r: ToastData)
        ensures
            r == *self,
    {
        let title = match &self.title {
            Some(t) => Some(t.clone()),
            None => None,
        };
        ToastData {
            id: self.id.clone(),
            message: self.message.clone(),
            title,
            variant: self.variant,
            duration: self.duration,
            dismissible: self.dismissible,
        }
    }
}

/// Props for the Toast component.
pub struct ToastProps {
    pub data: ToastData,
    /// Called with the toast's id when it is dismissed.
    pub on_dismiss: Option<Box<dyn Handler<String>>>,
}

/// The Toast component.
pub struct Toast;

/// Class names of a toast.
pub fn toast_classes(variant: ToastVariant) -> (r: String)
    ensures
        r@ == spaced(seq!["domius-toast"@, variant.class_text()]),
{
    let mut parts: Vec<String> = Vec::new();
    parts.push("domius-toast".to_owned());
    parts.push(variant.as_class().to_owned());
    assert(strs(parts@) =~= seq!["domius-toast"@, variant.class_text()]);
    class_names(&parts)
}

/// The id of a toast created at `now_ms` milliseconds.
pub fn toast_id(now_ms: u64) -> (r: String)
    ensures
        r@ == "toast-"@ + decimal(now_ms as nat),
{
    let mut r = String::new();
    push_str(&mut r, "toast-");
    push_decimal_u64(&mut r, now_ms);
    r
}

/// How long a toast of `variant` stays, in milliseconds.
pub open spec fn variant_duration(variant: ToastVariant) -> u64 {
    match variant {
        ToastVariant::Info => 5000,
        ToastVariant::Success => 3000,
        ToastVariant::Warning => 5000,
        ToastVariant::Error => 7000,
    }
}

/// `toasts` without those whose id is `id`.
pub open spec fn without_id(toasts: Seq<ToastData>, id: Seq<char>) -> Seq<ToastData> {
    toasts.filter(|t: ToastData| t.id@ != id)
}

/// Copies of `toasts`.
fn copy_toasts(toasts: &Vec<ToastData>) -> (r: Vec<ToastData>)
    ensures
        r@ == toasts@,
{
    let mut r: Vec<ToastData> = Vec::new();
    let mut i: usize = 0;
    while i < toasts.len()
        invariant
            i <= toasts@.len(),
            r@ == toasts@.take(i as int),
        decreases toasts@.len() - i,
    {
        r.push(toasts[i].copy());
        assert(toasts@.take(i + 1) =~= toasts@.take(i as int).push(toasts@[i as int]));
        i = i + 1;
    }
    assert(toasts@.take(toasts@.len() as int) =~= toasts@);
    r
}

/// Copies of the toasts whose id is not `id`, in order.
fn keep_others(toasts: &Vec<ToastData>, id: &String) -> (r: Vec<ToastData>)
    ensures
        r@ == without_id(toasts@, id@),
{
    let mut r: Vec<ToastData> = Vec::new();
    let mut i: usize = 0;
    while i < toasts.len()
        invariant
            i <= toasts@.len(),
            r@ == without_id(toasts@.take(i as int), id@),
        decreases toasts@.len() - i,
    {
        let ghost t = toasts@.take(i + 1);
        assert(t.drop_last() =~= toasts@.take(i as int));
        assert(t.last() == toasts@[i as int]);
        assert(without_id(t, id@) == if t.last().id@ != id@ {
            without_id(t.drop_last(), id@).push(t.last())
        } else {
            without_id(t.drop_last(), id@)
        }) by {
            reveal(Seq::filter);
        }
        let same = toasts[i].id == *id;
        if !same {
            r.push(toasts[i].copy());
        }
        i = i + 1;
    }
    assert(toasts@.take(toasts@.len() as int) =~= toasts@);
    r
}

/// Keeps the list of toasts shown, in a signal of a runtime.
#[derive(Clone, Copy)]
pub struct ToastManager {
    /// A signal holding the toasts, oldest first.
    pub toasts: Signal,
}

impl ToastManager {
    /// A manager whose list, a new signal of `rt`, is empty.
    pub fn new(rt: &mut Runtime<Vec<ToastData>>) -> (m: Self)
        requires
            old(rt).wf(),
        ensures
            final(rt).wf(),
            m.toasts.id() == old(rt).store().len(),
            final(rt).store().len() == old(rt).store().len() + 1,
            final(rt).store().value(m.toasts)@ == Seq::<ToastData>::empty(),
            final(rt).same_bookkeeping(*old(rt)),
    {
        ToastManager { toasts: signal(rt, Vec::new()) }
    }

    /// Write `list` to the toasts; the effects reading it then run.
    fn store(&self, rt: &mut Runtime<Vec<ToastData>>, list: Vec<ToastData>)
        requires
            old(rt).wf(),
            old(rt).store().holds(self.toasts),
        ensures
            final(rt).wf(),
            final(rt).same_bookkeeping(*old(rt)),
            old(rt).store().pending().len() == 0 && old(rt).store().subscribers(self.toasts).len() == 0
                ==> final(rt).store().value(self.toasts)@ == list@,
            final(rt).store().len() >= old(rt).store().len(),
            !old(rt).live_writer(self.toasts) ==> final(rt).store().value(self.toasts)@ == list@,
    {
        rt.set(self.toasts, list);
    }

    /// Show `toast` after the others.
    pub fn add(&self, rt: &mut Runtime<Vec<ToastData>>, toast: ToastData)
        requires
            old(rt).wf(),
            old(rt).store().holds(self.toasts),
        ensures
            final(rt).wf(),
            final(rt).same_bookkeeping(*old(rt)),
            old(rt).store().pending().len() == 0 && old(rt).store().subscribers(self.toasts).len() == 0
                ==> final(rt).store().value(self.toasts)@ == old(rt).store().value(self.toasts)@.push(toast),
            final(rt).store().len() >= old(rt).store().len(),
            !old(rt).live_writer(self.toasts) ==> final(rt).store().value(self.toasts)@ == old(rt).store().value(self.toasts)@.push(toast),
    {
        let mut list = copy_toasts(rt.signals().get_untracked(self.toasts));
        list.push(toast);
        self.store(rt, list);
    }

    /// Stop showing the toasts whose id is `id`.
    pub fn remove(&self, rt: &mut Runtime<Vec<ToastData>>, id: &String)
        requires
            old(rt).wf(),
            old(rt).store().holds(self.toasts),
        ensures
            final(rt).wf(),
            final(rt).same_bookkeeping(*old(rt)),
            old(rt).store().pending().len() == 0 && old(rt).store().subscribers(self.toasts).len() == 0
                ==> final(rt).store().value(self.toasts)@ == without_id(old(rt).store().value(self.toasts)@, id@),
            final(rt).store().len() >= old(rt).store().len(),
            !old(rt).live_writer(self.toasts) ==> final(rt).store().value(self.toasts)@ == without_id(old(rt).store().value(self.toasts)@, id@),
    {
        let list = keep_others(rt.signals().get_untracked(self.toasts), id);
        self.store(rt, list);
    }

    /// The toast of `variant` that shows `message`, created at `now_ms`.
    pub fn notice(variant: ToastVariant, message: String, now_ms: u64) -> (t: ToastData)
        ensures
            t.id@ == "toast-"@ + decimal(now_ms as nat),
            t.message == message,
            t.title is None,
            t.variant == variant,
            t.duration == Some(variant_duration(variant)),
            t.dismissible,
    {
        let duration: u64 = match variant {
            ToastVariant::Info => 5000,
            ToastVariant::Success => 3000,
            ToastVariant::Warning => 5000,
            ToastVariant::Error => 7000,
        };
        ToastData {
            id: toast_id(now_ms),
            message,
            title: None,
            variant,
            duration: Some(duration),
            dismissible: true,
        }
    }

    /// Show an info toast created at `now_ms` milliseconds.
    pub fn info(&self, rt: &mut Runtime<Vec<ToastData>>, message: String, now_ms: u64)
        requires
            old(rt).wf(),
            old(rt).store().holds(self.toasts),
        ensures
            final(rt).wf(),
            final(rt).same_bookkeeping(*old(rt)),
            old(rt).store().pending().len() == 0 && old(rt).store().subscribers(self.toasts).len() == 0
                ==> final(rt).store().value(self.toasts)@ == old(rt).store().value(self.toasts)@.push(
                ToastData {
                    id: final(rt).store().value(self.toasts)@.last().id,
                    message,
                    title: None,
                    variant: ToastVariant::Info,
                    duration: Some(5000u64),
                    dismissible: true,
                },
            ) && final(rt).store().value(self.toasts)@.last().id@ == "toast-"@ + decimal(now_ms as nat),
    {
        self.add(rt, ToastManager::notice(ToastVariant::Info, message, now_ms));
    }

    /// Show a success toast created at `now_ms` milliseconds.
    pub fn success(&self, rt: &mut Runtime<Vec<ToastData>>, message: String, now_ms: u64)
        requires
            old(rt).wf(),
            old(rt).store().holds(self.toasts),
        ensures
            final(rt).wf(),
            final(rt).same_bookkeeping(*old(rt)),
            old(rt).store().pending().len() == 0 && old(rt).store().subscribers(self.toasts).len() == 0
                ==> final(rt).store().value(self.toasts)@ == old(rt).store().value(self.toasts)@.push(
                ToastData {
                    id: final(rt).store().value(self.toasts)@.last().id,
                    message,
                    title: None,
                    variant: ToastVariant::Success,
                    duration: Some(3000u64),
                    dismissible: true,
                },
            ) && final(rt).store().value(self.toasts)@.last().id@ == "toast-"@ + decimal(now_ms as nat),
    {
        self.add(rt, ToastManager::notice(ToastVariant::Success, message, now_ms));
    }

    /// Show a warning toast created at `now_ms` milliseconds.
    pub fn warning(&self, rt: &mut Runtime<Vec<ToastData>>, message: String, now_ms: u64)
        requires
            old(rt).wf(),
            old(rt).store().holds(self.toasts),
        ensures
            final(rt).wf(),
            final(rt).same_bookkeeping(*old(rt)),
            old(rt).store().pending().len() == 0 && old(rt).store().subscribers(self.toasts).len() == 0
                ==> final(rt).store().value(self.toasts)@ == old(rt).store().value(self.toasts)@.push(
                ToastData {
                    id: final(rt).store().value(self.toasts)@.last().id,
                    message,
                    title: None,
                    variant: ToastVariant::Warning,
                    duration: Some(5000u64),
                    dismissible: true,
                },
            ) && final(rt).store().value(self.toasts)@.last().id@ == "toast-"@ + decimal(now_ms as nat),
    {
        self.add(rt, ToastManager::notice(ToastVariant::Warning, message, now_ms));
    }

    /// Show an error toast created at `now_ms` milliseconds.
    pub fn error(&self, rt: &mut Runtime<Vec<ToastData>>, message: String, now_ms: u64)
        requires
            old(rt).wf(),
            old(rt).store().holds(self.toasts),
        ensures
            final(rt).wf(),
            final(rt).same_bookkeeping(*old(rt)),
            old(rt).store().pending().len() == 0 && old(rt).store().subscribers(self.toasts).len() == 0
                ==> final(rt).store().value(self.toasts)@ == old(rt).store().value(self.toasts)@.push(
                ToastData {
                    id: final(rt).store().value(self.toasts)@.last().id,
                    message,
                    title: None,
                    variant: ToastVariant::Error,
                    duration: Some(7000u64),
                    dismissible: true,
                },
            ) && final(rt).store().value(self.toasts)@.last().id@ == "toast-"@ + decimal(now_ms as nat),
    {
        self.add(rt, ToastManager::notice(ToastVariant::Error, message, now_ms));
    }
}

/// The container that shows the toasts of a manager.
pub struct ToastContainer;


/// Removing a toast by the id of the toast added last undoes the addition
/// when no earlier toast had that id.
pub proof fn lemma_remove_undoes_add(toasts: Seq<ToastData>, toast: ToastData)
    requires
        forall|i: int| 0 <= i < toasts.len() ==> (#[trigger] toasts[i]).id@ != toast.id@,
    ensures
        without_id(toasts.push(toast), toast.id@) == toasts,
    decreases toasts.len(),
{
    reveal(Seq::filter);
    assert(toasts.push(toast).drop_last() =~= toasts);
    lemma_keeps_all(toasts, toast.id@);
}

proof fn lemma_keeps_all(toasts: Seq<ToastData>, id: Seq<char>)
    requires
        forall|i: int| 0 <= i < toasts.len() ==> (#[trigger] toasts[i]).id@ != id,
    ensures
        without_id(toasts, id) == toasts,
    decreases toasts.len(),
{
    reveal(Seq::filter);
    if toasts.len() > 0 {
        let d = toasts.drop_last();
        assert forall|i: int| 0 <= i < d.len() implies (#[trigger] d[i]).id@ != id by {
            assert(d[i] == toasts[i]);
        }
        lemma_keeps_all(d, id);
        assert(toasts.last() == toasts[toasts.len() - 1]);
        assert(d.push(toasts.last()) =~= toasts);
    }
}

} // verus!
