//! Pagination: the page count of a data set, the page each control leads
//! to, and the controls shown around the current page.
use vstd::prelude::*;
use crate::web::{class_names, push_extra, spaced, strs, with_extra, Handler};
use crate::runtime::Runtime;
use crate::signal::Signal;

verus! {

/// Props for the Pagination component.
pub struct PaginationProps {
    pub total_items: usize,
    pub page_size: usize,
    pub current_page: Option<usize>,
    pub sibling_count: usize,
    pub show_first_last: bool,
    pub show_prev_next: bool,
    pub on_page_change: Option<Box<dyn Handler<usize>>>,
    pub class: Option<String>,
}

impl Default for PaginationProps {
    fn default() -> (r: Self)
        ensures
            r.total_items == 0,
            r.page_size == 10,
            r.current_page == Some(1usize),
            r.sibling_count == 1,
            r.show_first_last,
            r.show_prev_next,
            r.on_page_change is None,
            r.class is None,
    {
        PaginationProps {
            total_items: 0,
            page_size: 10,
            current_page: Some(1),
            sibling_count: 1,
            show_first_last: true,
            show_prev_next: true,
            on_page_change: None,
            class: None,
        }
    }
}

/// The Pagination component.
pub struct Pagination;

/// Class names of the pagination landmark.
pub fn nav_classes(class: &Option<String>) -> (r: String)
    ensures
        r@ == spaced(with_extra(seq!["pagination"@], *class)),
{
    let mut parts: Vec<String> = Vec::new();
    parts.push("pagination".to_owned());
    assert(strs(parts@) =~= seq!["pagination"@]);
    push_extra(&mut parts, class);
    class_names(&parts)
}

/// `a - b`, or 0 when `b` is larger (`usize::saturating_sub`).
pub open spec fn sat_sub(a: nat, b: nat) -> nat {
    if a >= b { (a - b) as nat } else { 0 }
}

/// `a + b`, or `usize::MAX` when that overflows (`usize::saturating_add`).
pub open spec fn sat_add(a: nat, b: nat) -> nat {
    if a + b > usize::MAX { usize::MAX as nat } else { a + b }
}

/// The number of pages that `total_items` fill at `page_size` items a page;
/// a page size of 0 counts as 1, and there is always at least one page.
pub open spec fn page_count(total_items: nat, page_size: nat) -> nat {
    let size = if page_size == 0 { 1 } else { page_size };
    let pages = if total_items % size == 0 { total_items / size } else { total_items / size + 1 };
    if pages == 0 { 1 } else { pages }
}

/// The number of pages.
pub fn total_pages(total_items: usize, page_size: usize) -> (r: usize)
    ensures
        r == page_count(total_items as nat, page_size as nat),
        r >= 1,
{
    let size = if page_size == 0 { 1 } else { page_size };
    let pages = if total_items % size == 0 {
        total_items / size
    } else {
        assert(size >= 2) by (nonlinear_arith)
            requires
                total_items % size != 0,
                size >= 1,
        ;
        assert(total_items / size < usize::MAX) by (nonlinear_arith)
            requires
                size >= 2,
                total_items <= usize::MAX,
        ;
        total_items / size + 1
    };
    if pages == 0 { 1 } else { pages }
}

/// `page` brought into `1..=total`.
pub open spec fn clamp_page(page: nat, total: nat) -> nat {
    if page < 1 { 1 } else if page > total { total } else { page }
}

/// The page shown first: the requested one (page 1 when none is given),
/// brought into range.
pub fn initial_page(current_page: Option<usize>, total: usize) -> (r: usize)
    requires
        total >= 1,
    ensures
        r == clamp_page(
            match current_page {
                Some(p) => p as nat,
                None => 1,
            },
            total as nat,
        ),
        1 <= r <= total,
{
    let page = match current_page {
        Some(p) => p,
        None => 1,
    };
    if page < 1 {
        1
    } else if page > total {
        total
    } else {
        page
    }
}

/// What a pagination control asks for.
#[derive(Clone, Copy, PartialEq, Eq, Debug, Structural)]
pub enum PageAction {
    First,
    Previous,
    Next,
    Last,
    /// A page by number; `None` when the number could not be read.
    Page(Option<usize>),
}

/// The page an action leads to from page `current` of `total`.
pub open spec fn page_after(action: PageAction, current: nat, total: nat) -> nat {
    match action {
        PageAction::First => 1,
        PageAction::Previous => if sat_sub(current, 1) < 1 { 1 } else { sat_sub(current, 1) },
        PageAction::Next => if sat_add(current, 1) > total { total } else { sat_add(current, 1) },
        PageAction::Last => total,
        PageAction::Page(Some(p)) => p as nat,
        PageAction::Page(None) => current,
    }
}

/// The action named by a control's `data-action` token, with the page
/// number its `data-page` holds; `None` for an unknown token.
pub fn parse_action(action: &String, page: Option<usize>) -> (r: Option<PageAction>)
    ensures
        r == if action@ == "first"@ {
            Some(PageAction::First)
        } else if action@ == "previous"@ {
            Some(PageAction::Previous)
        } else if action@ == "next"@ {
            Some(PageAction::Next)
        } else if action@ == "last"@ {
            Some(PageAction::Last)
        } else if action@ == "page"@ {
            Some(PageAction::Page(page))
        } else {
            None::<PageAction>
        },
{
    if *action == "first".to_owned() {
        Some(PageAction::First)
    } else if *action == "previous".to_owned() {
        Some(PageAction::Previous)
    } else if *action == "next".to_owned() {
        Some(PageAction::Next)
    } else if *action == "last".to_owned() {
        Some(PageAction::Last)
    } else if *action == "page".to_owned() {
        Some(PageAction::Page(page))
    } else {
        None
    }
}

/// The page `action` leads to from page `current` of `total`.
pub fn next_page(action: PageAction, current: usize, total: usize) -> (r: usize)
    ensures
        r == page_after(action, current as nat, total as nat),
{
    match action {
        PageAction::First => 1,
        PageAction::Previous => {
            let p = current.saturating_sub(1);
            if p < 1 { 1 } else { p }
        },
        PageAction::Next => {
            let p = current.saturating_add(1);
            if p > total { total } else { p }
        },
        PageAction::Last => total,
        PageAction::Page(Some(p)) => p,
        PageAction::Page(None) => current,
    }
}

/// The page `page` moves to under `action`, or `None` when it stays put.
pub open spec fn page_change(action: PageAction, current: usize, total: usize) -> Option<usize> {
    let next = page_after(action, current as nat, total as nat);
    if next != current {
        Some(next as usize)
    } else {
        None::<usize>
    }
}

/// Apply a control's action to the current-page signal `page` of `total`
/// pages: when the page changes, write the new page (running the effects
/// this schedules) and return it, for the page-change callback; `None`, and
/// nothing changed, when the action leaves the page as it is.
pub fn change_page(
    rt: &mut Runtime<usize>,
    page: Signal,
    action: PageAction,
    total: usize,
) -> (r: Option<usize>)
    requires
        old(rt).wf(),
        old(rt).store().holds(page),
    ensures
        final(rt).wf(),
        old(rt).keeps_disposed_idle(*final(rt)),
        final(rt).same_bookkeeping(*old(rt)),
        r == page_change(action, old(rt).store().value(page), total),
        r is None ==> *final(rt) == *old(rt),
        r is Some && old(rt).store().pending().len() == 0 && old(rt).store().subscribers(page).len() == 0
            ==> final(rt).store().value(page) == r.unwrap(),
        final(rt).store().len() >= old(rt).store().len(),
        r is Some && !old(rt).live_writer(page) ==> final(rt).store().value(page) == r.unwrap(),
        1 <= old(rt).store().value(page) <= total && (action matches PageAction::Page(Some(p)) ==> 1 <= p <= total)
            ==> (r matches Some(n) ==> 1 <= n <= total),
{
    let current = *rt.signals().get_untracked(page);
    let next = next_page(action, current, total);
    if next != current {
        rt.set(page, next);
        Some(next)
    } else {
        None
    }
}

/// The first page of the window around the current one.
pub open spec fn window_start(current: nat, siblings: nat) -> nat {
    if sat_sub(current, siblings) < 1 { 1 } else { sat_sub(current, siblings) }
}

/// The last page of the window around the current one.
pub open spec fn window_end(current: nat, total: nat, siblings: nat) -> nat {
    if sat_add(current, siblings) > total { total } else { sat_add(current, siblings) }
}

/// Page `page` gets a button: it is the first or the last page, or within
/// `siblings` pages of the current one.
pub open spec fn page_shown(page: nat, current: nat, total: nat, siblings: nat) -> bool {
    page == 1 || page == total || (window_start(current, siblings) <= page && page <= window_end(current, total, siblings))
}

/// The pages that get a button, in increasing order.
pub fn visible_pages(current: usize, total: usize, siblings: usize) -> (r: Vec<usize>)
    ensures
        forall|a: int, b: int| 0 <= a < b < r@.len() ==> r@[a] < r@[b],
        forall|p: usize| r@.contains(p) <==> page_shown(p as nat, current as nat, total as nat, siblings as nat),
{
    let start = {
        let s = current.saturating_sub(siblings);
        if s < 1 { 1 } else { s }
    };
    let end = {
        let e = current.saturating_add(siblings);
        if e > total { total } else { e }
    };
    let first = if total < 1 { total } else { 1 };
    let last = if total < 1 { 1 } else { total };
    let mut r: Vec<usize> = Vec::new();
    r.push(first);
    assert(r@[0] == first);
    if start <= end {
        let mut x = start;
        loop
            invariant_except_break
                forall|p: usize| r@.contains(p) <==> (p == first || (start <= p < x)),
            invariant
                start <= x <= end,
                first <= start,
                r@.len() >= 1,
                forall|a: int, b: int| 0 <= a < b < r@.len() ==> r@[a] < r@[b],
            ensures
                r@.len() >= 1,
                forall|a: int, b: int| 0 <= a < b < r@.len() ==> r@[a] < r@[b],
                forall|p: usize| r@.contains(p) <==> (p == first || (start <= p <= end)),
            decreases end - x,
        {
            let ghost before = r@;
            let top = r[r.len() - 1];
            assert(before.contains(before.last()));
            if top < x {
                r.push(x);
                proof {
                    assert forall|p: usize| r@.contains(p) <==> (p == first || (start <= p <= x)) by {
                        if r@.contains(p) && p != x {
                            let k = choose|k: int| 0 <= k < r@.len() && r@[k] == p;
                            assert(before[k] == p);
                        }
                        if before.contains(p) {
                            let k = choose|k: int| 0 <= k < before.len() && before[k] == p;
                            assert(r@[k] == p);
                        }
                        if p == x {
                            assert(r@[before.len() as int] == p);
                        }
                    }
                }
            } else {
                assert(top == first && x == start);
            }
            if x == end {
                break;
            }
            x = x + 1;
        }
    }
    let ghost before = r@;
    assert(before.contains(before.last()));
    assert(forall|p: usize| before.contains(p) ==> p <= last);
    if r[r.len() - 1] < last {
        r.push(last);
    }
    proof {
        assert forall|p: usize| r@.contains(p) <==> page_shown(p as nat, current as nat, total as nat, siblings as nat) by {
            if r@.contains(p) && p != last {
                let k = choose|k: int| 0 <= k < r@.len() && r@[k] == p;
                assert(before[k] == p);
            }
            if before.contains(p) {
                let k = choose|k: int| 0 <= k < before.len() && before[k] == p;
                assert(r@[k] == p);
            }
            if p == last && r@.len() > before.len() {
                assert(r@[before.len() as int] == p);
            }
        }
    }
    r
}


/// A control that moves relative to the current page.
#[derive(Clone, Copy, PartialEq, Eq, Debug, Structural)]
pub enum StepControl {
    First,
    Previous,
    Next,
    Last,
}

impl StepControl {
    /// The visible and accessible label of the control.
    pub open spec fn label_text(self) -> Seq<char> {
        match self {
            StepControl::First => "First"@,
            StepControl::Previous => "Previous"@,
            StepControl::Next => "Next"@,
            StepControl::Last => "Last"@,
        }
    }

    /// The visible and accessible label of the control.
    pub fn label(self) -> (r: &'static str)
        ensures
            r@ == self.label_text(),
    {
        match self {
            StepControl::First => "First",
            StepControl::Previous => "Previous",
            StepControl::Next => "Next",
            StepControl::Last => "Last",
        }
    }

    /// The `data-action` token of the control.
    pub open spec fn action_token(self) -> Seq<char> {
        match self {
            StepControl::First => "first"@,
            StepControl::Previous => "previous"@,
            StepControl::Next => "next"@,
            StepControl::Last => "last"@,
        }
    }

    /// The `data-action` token of the control.
    pub fn action(self) -> (r: &'static str)
        ensures
            r@ == self.action_token(),
    {
        match self {
            StepControl::First => "first",
            StepControl::Previous => "previous",
            StepControl::Next => "next",
            StepControl::Last => "last",
        }
    }
}

/// One item of the pagination bar.
#[derive(Clone, Copy, PartialEq, Eq, Debug, Structural)]
pub enum PageControl {
    /// A step control leading to `target`, disabled at the end it moves to.
    Step { control: StepControl, target: usize, disabled: bool },
    /// An ellipsis standing for skipped pages.
    Gap,
    /// The button of a page; `current` marks the page shown.
    Page { page: usize, current: bool },
}

/// The buttons of `pages` (in increasing order), with a gap wherever pages
/// are skipped between two buttons.
pub open spec fn page_buttons(pages: Seq<usize>, current: nat) -> Seq<PageControl>
    decreases pages.len(),
{
    if pages.len() == 0 {
        Seq::empty()
    } else {
        let rest = page_buttons(pages.drop_last(), current);
        let p = pages.last();
        let with_gap = if pages.len() > 1 && p > pages[pages.len() - 2] + 1 { rest.push(PageControl::Gap) } else { rest };
        with_gap.push(PageControl::Page { page: p, current: p == current })
    }
}

/// The controls before the page buttons.
pub open spec fn leading_controls(current: nat, show_first_last: bool, show_prev_next: bool) -> Seq<PageControl> {
    let first = if show_first_last {
        seq![PageControl::Step { control: StepControl::First, target: 1, disabled: current == 1 }]
    } else {
        Seq::empty()
    };
    let prev = if sat_sub(current, 1) < 1 { 1 } else { sat_sub(current, 1) };
    if show_prev_next {
        first.push(PageControl::Step { control: StepControl::Previous, target: prev as usize, disabled: current == 1 })
    } else {
        first
    }
}

/// The controls after the page buttons.
pub open spec fn trailing_controls(current: nat, total: nat, show_first_last: bool, show_prev_next: bool) -> Seq<PageControl> {
    let next = if sat_add(current, 1) > total { total } else { sat_add(current, 1) };
    let step = if show_prev_next {
        seq![PageControl::Step { control: StepControl::Next, target: next as usize, disabled: current == total }]
    } else {
        Seq::empty()
    };
    if show_first_last {
        step.push(PageControl::Step { control: StepControl::Last, target: total as usize, disabled: current == total })
    } else {
        step
    }
}

/// The whole pagination bar for the buttons of `pages`.
pub open spec fn bar(pages: Seq<usize>, current: nat, total: nat, show_first_last: bool, show_prev_next: bool) -> Seq<PageControl> {
    leading_controls(current, show_first_last, show_prev_next) + page_buttons(pages, current) + trailing_controls(
        current,
        total,
        show_first_last,
        show_prev_next,
    )
}

/// `pages` lists, in increasing order, exactly the pages that get a button.
pub open spec fn lists_shown_pages(pages: Seq<usize>, current: nat, total: nat, siblings: nat) -> bool {
    &&& forall|a: int, b: int| 0 <= a < b < pages.len() ==> pages[a] < pages[b]
    &&& forall|p: usize| pages.contains(p) <==> page_shown(p as nat, current, total, siblings)
}

/// The bar for the buttons of `pages`.
pub fn controls_for(pages: &Vec<usize>, current: usize, total: usize, show_first_last: bool, show_prev_next: bool) -> (r: Vec<PageControl>)
    ensures
        r@ == bar(pages@, current as nat, total as nat, show_first_last, show_prev_next),
{
    let mut r: Vec<PageControl> = Vec::new();
    if show_first_last {
        r.push(PageControl::Step { control: StepControl::First, target: 1, disabled: current == 1 });
    }
    if show_prev_next {
        let p = current.saturating_sub(1);
        let prev = if p < 1 { 1 } else { p };
        r.push(PageControl::Step { control: StepControl::Previous, target: prev, disabled: current == 1 });
    }
    let ghost lead = r@;
    assert(lead =~= leading_controls(current as nat, show_first_last, show_prev_next));
    let mut i: usize = 0;
    while i < pages.len()
        invariant
            i <= pages@.len(),
            r@ == lead + page_buttons(pages@.take(i as int), current as nat),
        decreases pages@.len() - i,
    {
        let ghost before = r@;
        let page = pages[i];
        assert(pages@.take(i + 1).drop_last() =~= pages@.take(i as int));
        if i > 0 && page > pages[i - 1] && page - pages[i - 1] > 1 {
            r.push(PageControl::Gap);
        }
        r.push(PageControl::Page { page, current: page == current });
        proof {
            let t = pages@.take(i + 1);
            assert(t.last() == page);
            if i > 0 {
                assert(t[t.len() - 2] == pages@[i - 1]);
            }
            assert(r@ =~= lead + page_buttons(t, current as nat));
        }
        i = i + 1;
    }
    assert(pages@.take(pages.len() as int) =~= pages@);
    let ghost middle = r@;
    if show_prev_next {
        let n = current.saturating_add(1);
        let next = if n > total { total } else { n };
        r.push(PageControl::Step { control: StepControl::Next, target: next, disabled: current == total });
    }
    if show_first_last {
        r.push(PageControl::Step { control: StepControl::Last, target: total, disabled: current == total });
    }
    assert(r@ =~= middle + trailing_controls(current as nat, total as nat, show_first_last, show_prev_next));
    r
}

/// The pagination bar shown on page `current` of `total`.
pub fn render_plan(current: usize, total: usize, siblings: usize, show_first_last: bool, show_prev_next: bool) -> (r: Vec<PageControl>)
    ensures
        exists|pages: Seq<usize>|
            lists_shown_pages(pages, current as nat, total as nat, siblings as nat) && r@ == bar(
                pages,
                current as nat,
                total as nat,
                show_first_last,
                show_prev_next,
            ),
{
    let pages = visible_pages(current, total, siblings);
    let r = controls_for(&pages, current, total, show_first_last, show_prev_next);
    assert(lists_shown_pages(pages@, current as nat, total as nat, siblings as nat));
    r
}


/// Page buttons hold no step control.
proof fn lemma_page_buttons_no_steps(pages: Seq<usize>, current: nat)
    ensures
        forall|i: int| 0 <= i < page_buttons(pages, current).len() ==> !(page_buttons(pages, current)[i] is Step),
    decreases pages.len(),
{
    if pages.len() > 0 {
        lemma_page_buttons_no_steps(pages.drop_last(), current);
    }
}

/// Whether a step control of `control` is disabled on page `current` of
/// `total`: the backward steps on the first page, the forward steps on the
/// last.
pub open spec fn step_disabled(control: StepControl, current: nat, total: nat) -> bool {
    match control {
        StepControl::First | StepControl::Previous => current == 1,
        StepControl::Next | StepControl::Last => current == total,
    }
}

/// The page a step control leads to from page `current` of `total`: the
/// first page, the one before (not below 1), the one after (not above
/// `total`), the last page.
pub open spec fn step_target(control: StepControl, current: nat, total: nat) -> nat {
    match control {
        StepControl::First => 1,
        StepControl::Previous => if current <= 1 { 1 } else { (current - 1) as nat },
        StepControl::Next => if current + 1 > total { total } else { current + 1 },
        StepControl::Last => total,
    }
}

/// In every bar each step control leads one page towards its end (or to
/// the end itself) and is disabled exactly at the end it moves towards,
/// and with previous/next shown the bar has a Next control.
pub proof fn lemma_steps_disabled_at_ends(pages: Seq<usize>, current: nat, total: nat, show_first_last: bool, show_prev_next: bool)
    ensures
        forall|i: int|
            0 <= i < bar(pages, current, total, show_first_last, show_prev_next).len() ==> match #[trigger] bar(
                pages,
                current,
                total,
                show_first_last,
                show_prev_next,
            )[i] {
                PageControl::Step { control, target, disabled } => disabled == step_disabled(control, current, total)
                    && (total <= usize::MAX && current + 1 <= usize::MAX ==> target == step_target(control, current, total)),
                _ => true,
            },
        show_prev_next ==> exists|i: int|
            0 <= i < bar(pages, current, total, show_first_last, show_prev_next).len() && #[trigger] bar(
                pages,
                current,
                total,
                show_first_last,
                show_prev_next,
            )[i] matches PageControl::Step { control: StepControl::Next, .. },
{
    let lead = leading_controls(current, show_first_last, show_prev_next);
    let mid = page_buttons(pages, current);
    let tail = trailing_controls(current, total, show_first_last, show_prev_next);
    let b = bar(pages, current, total, show_first_last, show_prev_next);
    lemma_page_buttons_no_steps(pages, current);
    assert forall|i: int| 0 <= i < b.len() implies match #[trigger] b[i] {
        PageControl::Step { control, target, disabled } => disabled == step_disabled(control, current, total)
            && (total <= usize::MAX && current + 1 <= usize::MAX ==> target == step_target(control, current, total)),
        _ => true,
    } by {
        if i < lead.len() {
            assert(b[i] == lead[i]);
        } else if i < lead.len() + mid.len() {
            assert(b[i] == mid[i - lead.len()]);
        } else {
            assert(b[i] == tail[i - lead.len() - mid.len()]);
        }
    }
    if show_prev_next {
        let k: int = (lead.len() + mid.len()) as int;
        assert(b[k] == tail[0]);
    }
}

/// From a page in range, the step controls (first, previous, next, last)
/// lead to a page in range.
pub proof fn lemma_steps_stay_in_range(action: PageAction, current: nat, total: nat)
    requires
        1 <= current <= total,
        total <= usize::MAX,
        !(action is Page),
    ensures
        1 <= page_after(action, current, total) <= total,
{
}

/// The first page, the last page and the current page always get a button.
pub proof fn lemma_anchor_pages_shown(current: nat, total: nat, siblings: nat)
    requires
        1 <= current <= total,
        total <= usize::MAX,
    ensures
        page_shown(1, current, total, siblings),
        page_shown(total, current, total, siblings),
        page_shown(current, current, total, siblings),
{
}

/// Exactly one list names the shown pages in increasing order, so the bar
/// of a page is determined.
pub proof fn lemma_shown_pages_unique(a: Seq<usize>, b: Seq<usize>, current: nat, total: nat, siblings: nat)
    requires
        lists_shown_pages(a, current, total, siblings),
        lists_shown_pages(b, current, total, siblings),
    ensures
        a == b,
{
    lemma_increasing_same_elements(a, b);
}

proof fn lemma_increasing_same_elements(a: Seq<usize>, b: Seq<usize>)
    requires
        forall|i: int, j: int| 0 <= i < j < a.len() ==> a[i] < a[j],
        forall|i: int, j: int| 0 <= i < j < b.len() ==> b[i] < b[j],
        forall|p: usize| a.contains(p) <==> b.contains(p),
    ensures
        a == b,
    decreases a.len() + b.len(),
{
    if a.len() == 0 || b.len() == 0 {
        if a.len() > 0 {
            assert(a.contains(a[0]));
        }
        if b.len() > 0 {
            assert(b.contains(b[0]));
        }
        assert(a =~= b);
    } else {
        let la = a.last();
        let lb = b.last();
        assert(a.contains(la));
        assert(b.contains(lb));
        let ja = choose|j: int| 0 <= j < b.len() && b[j] == la;
        let jb = choose|j: int| 0 <= j < a.len() && a[j] == lb;
        assert(la == lb) by {
            if ja < b.len() - 1 {
                assert(b[ja] < lb);
            }
            if jb < a.len() - 1 {
                assert(a[jb] < la);
            }
        }
        let da = a.drop_last();
        let db = b.drop_last();
        assert forall|p: usize| da.contains(p) <==> db.contains(p) by {
            if da.contains(p) {
                let k = choose|k: int| 0 <= k < da.len() && da[k] == p;
                assert(a[k] < la);
                assert(b.contains(p));
                let m = choose|m: int| 0 <= m < b.len() && b[m] == p;
                assert(m != b.len() - 1);
                assert(db[m] == p);
            }
            if db.contains(p) {
                let k = choose|k: int| 0 <= k < db.len() && db[k] == p;
                assert(b[k] < lb);
                assert(a.contains(p));
                let m = choose|m: int| 0 <= m < a.len() && a[m] == p;
                assert(m != a.len() - 1);
                assert(da[m] == p);
            }
        }
        lemma_increasing_same_elements(da, db);
        assert(a =~= da.push(la));
        assert(b =~= db.push(lb));
    }
}

} // verus!
