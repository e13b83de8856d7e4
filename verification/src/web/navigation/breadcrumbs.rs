//! Breadcrumbs: where the current page sits in the hierarchy.
use vstd::prelude::*;
use crate::web::{class_names, push_extra, spaced, strs, with_extra};

verus! {

/// A single breadcrumb.
#[derive(Clone)]
pub struct BreadcrumbItem {
    pub label: String,
    pub href: Option<String>,
    pub disabled: bool,
}

/// Props for the Breadcrumbs component.
#[derive(Clone)]
pub struct BreadcrumbsProps {
    pub items: Vec<BreadcrumbItem>,
    pub separator: Option<String>,
    pub class: Option<String>,
}

impl Default for BreadcrumbsProps {
    fn default() -> (r: Self)
        ensures
            r.items@.len() == 0,
            r.separator is Some && r.separator.unwrap()@ == "/"@,
            r.class is None,
    {
        BreadcrumbsProps { items: Vec::new(), separator: Some("/".to_owned()), class: None }
    }
}

/// The Breadcrumbs component.
pub struct Breadcrumbs;

/// How one breadcrumb is shown.
pub struct CrumbView {
    pub label: String,
    /// The link target; only enabled crumbs before the last are links.
    pub link: Option<String>,
    pub disabled: bool,
    /// The last crumb is the current page.
    pub current: bool,
    /// Every crumb but the last is followed by the separator.
    pub separated: bool,
}

/// Class names of the breadcrumbs landmark.
pub fn breadcrumbs_classes(class: &Option<String>) -> (r: String)
    ensures
        r@ == spaced(with_extra(seq!["domius-breadcrumbs"@], *class)),
{
    let mut parts: Vec<String> = Vec::new();
    parts.push("domius-breadcrumbs".to_owned());
    assert(strs(parts@) =~= seq!["domius-breadcrumbs"@]);
    push_extra(&mut parts, class);
    class_names(&parts)
}

/// The separator shown between crumbs: the given one, else "/".
pub fn separator_text(separator: &Option<String>) -> (r: String)
    ensures
        r@ == match separator {
            Some(s) => s@,
            None => "/"@,
        },
{
    match separator {
        Some(s) => s.clone(),
        None => "/".to_owned(),
    }
}

/// `view` shows crumb `item` at position `index` of `count`.
pub open spec fn shows_crumb(view: CrumbView, item: BreadcrumbItem, index: int, count: int) -> bool {
    let current = index + 1 == count;
    &&& view.label@ == item.label@
    &&& view.disabled == item.disabled
    &&& view.current == current
    &&& view.separated == !current
    &&& match view.link {
        Some(l) => item.href is Some && l@ == item.href.unwrap()@ && !item.disabled && !current,
        None => item.href is None || item.disabled || current,
    }
}

/// How each crumb is shown, in order.
pub fn crumb_views(items: &Vec<BreadcrumbItem>) -> (r: Vec<CrumbView>)
    ensures
        r@.len() == items@.len(),
        forall|i: int| 0 <= i < r@.len() ==> shows_crumb(#[trigger] r@[i], items@[i], i, items@.len() as int),
{
    let count = items.len();
    let mut r: Vec<CrumbView> = Vec::new();
    let mut i: usize = 0;
    while i < count
        invariant
            count == items@.len(),
            i <= count,
            r@.len() == i,
            forall|j: int| 0 <= j < i ==> shows_crumb(#[trigger] r@[j], items@[j], j, count as int),
        decreases count - i,
    {
        let item = &items[i];
        let current = i + 1 == count;
        let link = match &item.href {
            Some(h) => if !item.disabled && !current { Some(h.clone()) } else { None },
            None => None,
        };
        r.push(CrumbView { label: item.label.clone(), link, disabled: item.disabled, current, separated: !current });
        i = i + 1;
    }
    r
}

} // verus!
