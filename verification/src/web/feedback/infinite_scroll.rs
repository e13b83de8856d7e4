//! Infinite scroll: loading more items as the reader nears the end, with a
//! button for readers who cannot scroll.
use vstd::prelude::*;
use crate::runtime::Runtime;
use crate::signal::Signal;
use crate::text::{decimal, push_decimal, push_str};
use crate::web::{class_names, push_extra, spaced, strs, with_extra, Action};

verus! {

/// The InfiniteScroll component.
pub struct InfiniteScroll;

/// Class names of the scrolling region.
pub fn scroll_classes(class: &Option<String>) -> (r: String)
    ensures
        r@ == spaced(with_extra(seq!["domius-infinite-scroll"@], *class)),
{
    let mut parts: Vec<String> = Vec::new();
    parts.push("domius-infinite-scroll".to_owned());
    assert(strs(parts@) =~= seq!["domius-infinite-scroll"@]);
    push_extra(&mut parts, class);
    class_names(&parts)
}

/// The `data-direction` token.
pub open spec fn direction_text(reverse: bool) -> Seq<char> {
    if reverse { "reverse"@ } else { "forward"@ }
}

/// The `data-direction` token.
pub fn direction(reverse: bool) -> (r: &'static str)
    ensures
        r@ == direction_text(reverse),
{
    if reverse { "reverse" } else { "forward" }
}

/// The observer's root margin: the threshold below the viewport.
pub fn root_margin(threshold: usize) -> (r: String)
    ensures
        r@ == "0px 0px "@ + decimal(threshold as nat) + "px 0px"@,
{
    let mut r = String::new();
    push_str(&mut r, "0px 0px ");
    push_decimal(&mut r, threshold);
    push_str(&mut r, "px 0px");
    r
}

/// How the region shows its loading state.
#[derive(Clone, Copy, PartialEq, Eq, Debug, Structural)]
pub enum LoadStatus {
    /// A load is running.
    Loading,
    /// More items will load when the end is reached.
    Waiting,
    /// Every item is loaded.
    Complete,
}

impl LoadStatus {
    /// The status of the region.
    pub open spec fn of(loading: bool, has_more: bool) -> LoadStatus {
        if loading {
            LoadStatus::Loading
        } else if has_more {
            LoadStatus::Waiting
        } else {
            LoadStatus::Complete
        }
    }

    /// The status of the region.
    pub fn from_flags(loading: bool, has_more: bool) -> (r: LoadStatus)
        ensures
            r == LoadStatus::of(loading, has_more),
    {
        if loading {
            LoadStatus::Loading
        } else if has_more {
            LoadStatus::Waiting
        } else {
            LoadStatus::Complete
        }
    }

    /// The announcement of the status.
    pub open spec fn message_text(self) -> Seq<char> {
        match self {
            LoadStatus::Loading => "Loading more items"@,
            LoadStatus::Waiting => "More items load automatically"@,
            LoadStatus::Complete => "All items loaded"@,
        }
    }

    /// The announcement of the status.
    pub fn message(self) -> (r: &'static str)
        ensures
            r@ == self.message_text(),
    {
        match self {
            LoadStatus::Loading => "Loading more items",
            LoadStatus::Waiting => "More items load automatically",
            LoadStatus::Complete => "All items loaded",
        }
    }
}

/// The state of the "Load more" button: hidden once everything is loaded,
/// disabled while hidden or while a load runs.
pub fn load_button_state(loading: bool, has_more: bool) -> (r: (bool, bool))
    ensures
        r.0 == !has_more,
        r.1 == (!has_more || loading),
{
    (!has_more, !has_more || loading)
}

/// Ask for more items: only when more exist and no load is running. The
/// loading flag is set before `on_load_more` runs; returns whether it ran.
pub fn request_load(rt: &mut Runtime<bool>, has_more: Signal, loading: Signal, on_load_more: &dyn Action) -> (asked: bool)
    requires
        old(rt).wf(),
        old(rt).store().holds(has_more),
        old(rt).store().holds(loading),
    ensures
        final(rt).wf(),
        final(rt).same_bookkeeping(*old(rt)),
        asked == (old(rt).store().value(has_more) && !old(rt).store().value(loading)),
        !asked ==> final(rt).store() == old(rt).store(),
        asked && old(rt).store().pending().len() == 0 && old(rt).store().subscribers(loading).len() == 0
            ==> final(rt).store().value(loading),
        final(rt).store().len() >= old(rt).store().len(),
        asked && !old(rt).live_writer(loading) ==> final(rt).store().value(loading),
{
    let more = *rt.signals().get_untracked(has_more);
    let busy = *rt.signals().get_untracked(loading);
    if more && !busy {
        rt.set(loading, true);
        on_load_more.run();
        true
    } else {
        false
    }
}

} // verus!
