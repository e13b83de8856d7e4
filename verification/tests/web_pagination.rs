use domius::web::navigation::pagination::{
    controls_for, initial_page, nav_classes, next_page, parse_action, render_plan, total_pages,
    visible_pages, change_page, PageAction, PageControl, PaginationProps, StepControl,
};
use domius::runtime::Runtime;

#[test]
fn page_count_rounds_up_and_is_at_least_one() {
    assert_eq!(total_pages(0, 10), 1);
    assert_eq!(total_pages(10, 10), 1);
    assert_eq!(total_pages(11, 10), 2);
    assert_eq!(total_pages(95, 10), 10);
    assert_eq!(total_pages(5, 0), 5);
    assert_eq!(total_pages(usize::MAX, 2), usize::MAX / 2 + 1);
}

#[test]
fn initial_page_is_clamped() {
    assert_eq!(initial_page(None, 5), 1);
    assert_eq!(initial_page(Some(0), 5), 1);
    assert_eq!(initial_page(Some(3), 5), 3);
    assert_eq!(initial_page(Some(9), 5), 5);
}

#[test]
fn actions_move_within_range() {
    assert_eq!(next_page(PageAction::First, 4, 9), 1);
    assert_eq!(next_page(PageAction::Previous, 4, 9), 3);
    assert_eq!(next_page(PageAction::Previous, 1, 9), 1);
    assert_eq!(next_page(PageAction::Next, 4, 9), 5);
    assert_eq!(next_page(PageAction::Next, 9, 9), 9);
    assert_eq!(next_page(PageAction::Last, 4, 9), 9);
    assert_eq!(next_page(PageAction::Page(Some(7)), 4, 9), 7);
    assert_eq!(next_page(PageAction::Page(None), 4, 9), 4);
}

#[test]
fn action_tokens_parse() {
    assert_eq!(parse_action(&"first".to_string(), None), Some(PageAction::First));
    assert_eq!(parse_action(&"previous".to_string(), None), Some(PageAction::Previous));
    assert_eq!(parse_action(&"next".to_string(), None), Some(PageAction::Next));
    assert_eq!(parse_action(&"last".to_string(), None), Some(PageAction::Last));
    assert_eq!(parse_action(&"page".to_string(), Some(3)), Some(PageAction::Page(Some(3))));
    assert_eq!(parse_action(&"jump".to_string(), Some(3)), None);
}

#[test]
fn visible_pages_keep_ends_and_window() {
    assert_eq!(visible_pages(5, 10, 1), vec![1, 4, 5, 6, 10]);
    assert_eq!(visible_pages(1, 10, 1), vec![1, 2, 10]);
    assert_eq!(visible_pages(10, 10, 2), vec![1, 8, 9, 10]);
    assert_eq!(visible_pages(1, 1, 1), vec![1]);
    assert_eq!(visible_pages(2, 3, 5), vec![1, 2, 3]);
}

#[test]
fn bar_has_gaps_between_distant_pages() {
    let bar = controls_for(&vec![1, 4, 5, 6, 10], 5, 10, true, true);
    assert_eq!(
        bar,
        vec![
            PageControl::Step { control: StepControl::First, target: 1, disabled: false },
            PageControl::Step { control: StepControl::Previous, target: 4, disabled: false },
            PageControl::Page { page: 1, current: false },
            PageControl::Gap,
            PageControl::Page { page: 4, current: false },
            PageControl::Page { page: 5, current: true },
            PageControl::Page { page: 6, current: false },
            PageControl::Gap,
            PageControl::Page { page: 10, current: false },
            PageControl::Step { control: StepControl::Next, target: 6, disabled: false },
            PageControl::Step { control: StepControl::Last, target: 10, disabled: false },
        ]
    );
}

#[test]
fn bar_on_the_first_page_disables_backward_steps() {
    let bar = render_plan(1, 3, 1, false, true);
    assert_eq!(
        bar,
        vec![
            PageControl::Step { control: StepControl::Previous, target: 1, disabled: true },
            PageControl::Page { page: 1, current: true },
            PageControl::Page { page: 2, current: false },
            PageControl::Page { page: 3, current: false },
            PageControl::Step { control: StepControl::Next, target: 2, disabled: false },
        ]
    );
}

#[test]
fn step_labels_and_actions() {
    assert_eq!(StepControl::First.label(), "First");
    assert_eq!(StepControl::Last.action(), "last");
    assert_eq!(StepControl::Previous.action(), "previous");
    assert_eq!(StepControl::Next.label(), "Next");
}

#[test]
fn pagination_defaults_and_classes() {
    let props = PaginationProps::default();
    assert_eq!(props.total_items, 0);
    assert_eq!(props.page_size, 10);
    assert_eq!(props.current_page, Some(1));
    assert_eq!(props.sibling_count, 1);
    assert!(props.show_first_last && props.show_prev_next);
    assert_eq!(nav_classes(&None), "pagination");
    assert_eq!(nav_classes(&Some("compact".to_string())), "pagination compact");
}

#[test]
fn change_page_writes_and_reports_only_a_new_page() {
    let mut rt: Runtime<usize> = Runtime::new();
    let page = rt.create_signal(2);
    assert_eq!(change_page(&mut rt, page, PageAction::Next, 5), Some(3));
    assert_eq!(*rt.signals().get_untracked(page), 3);
    assert_eq!(change_page(&mut rt, page, PageAction::Page(Some(3)), 5), None);
    assert_eq!(*rt.signals().get_untracked(page), 3);
    assert_eq!(change_page(&mut rt, page, PageAction::Last, 5), Some(5));
    assert_eq!(change_page(&mut rt, page, PageAction::Next, 5), None);
    assert_eq!(change_page(&mut rt, page, PageAction::First, 5), Some(1));
    assert_eq!(*rt.signals().get_untracked(page), 1);
}
