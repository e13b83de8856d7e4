//! Tabs: content organised into selectable panels.
use vstd::prelude::*;
use crate::runtime::{signal, Runtime};
use crate::signal::Signal;
use crate::text::push_str;
use crate::web::{class_names, push_extra, spaced, strs, with_extra, Handler};

verus! {

/// A tab.
#[derive(Clone)]
pub struct Tab {
    pub id: String,
    pub label: String,
    pub disabled: bool,
    pub icon: Option<String>,
}

/// Props for the Tabs component.
pub struct TabsProps {
    /// List of tabs to display
    pub tabs: Vec<Tab>,
    /// Initially selected tab ID
    pub default_tab: Option<String>,
    /// Tab orientation
    pub orientation: TabOrientation,
    /// Whether tabs can be closed
    pub closable: bool,
    /// Callback when tab changes
    pub on_change: Option<Box<dyn Handler<String>>>,
    /// Callback when tab is closed
    pub on_close: Option<Box<dyn Handler<String>>>,
    /// Additional CSS classes
    pub class: Option<String>,
}

/// Tab orientation.
#[derive(Clone, Copy, PartialEq, Eq, Debug, Structural)]
pub enum TabOrientation {
    Horizontal,
    Vertical,
}

impl Default for TabOrientation {
    fn default() -> (r: Self)
        ensures
            r == TabOrientation::Horizontal,
    {
        TabOrientation::Horizontal
    }
}

impl TabOrientation {
    /// The orientation class.
    pub open spec fn class_text(self) -> Seq<char> {
        match self {
            TabOrientation::Horizontal => "domius-tabs-horizontal"@,
            TabOrientation::Vertical => "domius-tabs-vertical"@,
        }
    }

    /// The orientation class.
    pub fn as_class(self) -> (r: &'static str)
        ensures
            r@ == self.class_text(),
    {
        match self {
            TabOrientation::Horizontal => "domius-tabs-horizontal",
            TabOrientation::Vertical => "domius-tabs-vertical",
        }
    }
}

impl Default for TabsProps {
    fn default() -> (r: Self)
        ensures
            r.tabs@.len() == 0,
            r.default_tab is None,
            r.orientation == TabOrientation::Horizontal,
            !r.closable,
            r.on_change is None,
            r.on_close is None,
            r.class is None,
    {
        TabsProps {
            tabs: Vec::new(),
            default_tab: None,
            orientation: TabOrientation::Horizontal,
            closable: false,
            on_change: None,
            on_close: None,
            class: None,
        }
    }
}

/// The reactive state of a tabs element.
pub struct TabsState {
    /// A signal holding the id of the active tab.
    pub active_tab: Signal,
    /// A signal holding the id of the hovered tab, if any.
    pub hover_tab: Signal,
}

/// The Tabs component.
pub struct Tabs;

/// The tab active at first: the default tab, else the first tab, else none
/// (the empty id).
pub open spec fn initial_tab(default_tab: Option<String>, tabs: Seq<Tab>) -> Seq<char> {
    match default_tab {
        Some(t) => t@,
        None => if tabs.len() > 0 { tabs[0].id@ } else { Seq::empty() },
    }
}

/// The id of the tab active at first.
pub fn initial_active(default_tab: &Option<String>, tabs: &Vec<Tab>) -> (r: String)
    ensures
        r@ == initial_tab(*default_tab, tabs@),
{
    match default_tab {
        Some(t) => t.clone(),
        None => if tabs.len() > 0 { tabs[0].id.clone() } else { String::new() },
    }
}

/// Class names of a tabs element.
pub fn tabs_classes(orientation: TabOrientation, class: &Option<String>) -> (r: String)
    ensures
        r@ == spaced(with_extra(seq!["domius-tabs"@, orientation.class_text()], *class)),
{
    let mut parts: Vec<String> = Vec::new();
    parts.push("domius-tabs".to_owned());
    parts.push(orientation.as_class().to_owned());
    assert(strs(parts@) =~= seq!["domius-tabs"@, orientation.class_text()]);
    push_extra(&mut parts, class);
    class_names(&parts)
}

/// The text of a tab button: its icon and label, or the label alone.
pub fn tab_text(tab: &Tab) -> (r: String)
    ensures
        r@ == match tab.icon {
            Some(i) => i@ + " "@ + tab.label@,
            None => tab.label@,
        },
{
    match &tab.icon {
        Some(icon) => {
            let mut r = icon.clone();
            push_str(&mut r, " ");
            push_str(&mut r, tab.label.as_str());
            r
        },
        None => tab.label.clone(),
    }
}

/// Whether `tab` is the active one.
pub fn is_active(tab: &Tab, active: &String) -> (r: bool)
    ensures
        r == (tab.id@ == active@),
{
    tab.id == *active
}

/// Make `tab` the active tab, unless it is disabled; returns
/// whether it was activated.
pub fn activate(rt: &mut Runtime<String>, active: Signal, tab: &Tab) -> (done: bool)
    requires
        old(rt).wf(),
        old(rt).store().holds(active),
    ensures
        final(rt).wf(),
        final(rt).same_bookkeeping(*old(rt)),
        done == !tab.disabled,
        !done ==> final(rt).store() == old(rt).store(),
        done && old(rt).store().pending().len() == 0 && old(rt).store().subscribers(active).len() == 0
            ==> final(rt).store().value(active)@ == tab.id@,
        final(rt).store().len() >= old(rt).store().len(),
        done && !old(rt).live_writer(active) ==> final(rt).store().value(active)@ == tab.id@,
{
    if tab.disabled {
        return false;
    }
    rt.set(active, tab.id.clone());
    true
}

/// A tabs state whose active tab is `initial` and with no tab hovered.
pub fn tabs_state(active: &mut Runtime<String>, hover: &mut Runtime<Option<String>>, initial: String) -> (st: TabsState)
    requires
        old(active).wf(),
        old(hover).wf(),
    ensures
        final(active).wf(),
        final(hover).wf(),
        final(active).store().value(st.active_tab) == initial,
        final(hover).store().value(st.hover_tab) is None,
        st.active_tab.id() == old(active).store().len(),
        st.hover_tab.id() == old(hover).store().len(),
        final(active).same_bookkeeping(*old(active)),
        final(hover).same_bookkeeping(*old(hover)),
{
    let active_tab = signal(active, initial);
    let hover_tab = signal(hover, None);
    TabsState { active_tab, hover_tab }
}

} // verus!
