use std::cell::RefCell;
use std::rc::Rc;

use domius::runtime::{signal, Runtime};
use domius::web::class_names;
use domius::web::data::avatar::{avatar_classes, group_counts, initials, remaining_text, AvatarShape, AvatarSize};
use domius::web::data::badge::{badge_classes, BadgeSize, BadgeVariant};
use domius::web::data::charts::{chart_classes, chart_extent, chart_label, ChartType};
use domius::web::data::comment::{comment_classes, count_text, CommentListProps, CommentProps};
use domius::web::data::message::{message_classes, shows_read_mark, MessagePosition, MessageProps};
use domius::web::data::statistic::{shown_trend, statistic_card_classes, trend_icon, TrendType};
use domius::web::data::timeline::{timeline_classes, TimelineOrientation, TimelineProps};
use domius::web::feedback::infinite_scroll::{load_button_state, request_load, root_margin, LoadStatus};
use domius::web::feedback::modal::{modal_classes, ModalProps, ModalSize};
use domius::web::feedback::progress::{format_label, progress_classes, variant_token, ProgressProps, ProgressSize, ProgressVariant};
use domius::web::feedback::skeleton::{block_classes, box_style, circle_style, is_short_line, line_classes, SkeletonAnimation, SkeletonVariant};
use domius::web::feedback::spinner::{color_style, SpinnerProps, SpinnerSize, SpinnerType};
use domius::web::feedback::toast::{toast_classes, toast_id, ToastData, ToastManager, ToastVariant};
use domius::web::feedback::tooltip::{event_visibility, hint_classes, is_focusable, next_tooltip_id, TooltipPosition, Visibility};
use domius::web::forms::switch::{switch_classes, toggle, SwitchSize};
use domius::web::forms::treeselect::indent_style;
use domius::web::media::audio_player::{audio_flags, AudioPlayerProps};
use domius::web::navigation::anchor::{current_index, section_id};
use domius::web::navigation::breadcrumbs::{crumb_views, BreadcrumbItem, BreadcrumbsProps};
use domius::web::navigation::navbar::{link_target, logo_alt, navbar_classes, NavLink};
use domius::web::navigation::tabs::{activate, initial_active, tab_text, tabs_classes, Tab, TabOrientation, TabsProps};
use domius::web::Action;

#[test]
fn test_badge_variant_default() {
    assert_eq!(BadgeVariant::default(), BadgeVariant::Primary);
}

#[test]
fn test_badge_size_default() {
    assert_eq!(BadgeSize::default(), BadgeSize::Md);
}

#[test]
fn test_tab_orientation_default() {
    assert_eq!(TabOrientation::default(), TabOrientation::Horizontal);
}

#[test]
fn test_tabs_props_default() {
    let props = TabsProps::default();
    assert!(props.tabs.is_empty());
    assert!(props.default_tab.is_none());
    assert!(!props.closable);
}

#[test]
fn class_names_join_with_spaces() {
    assert_eq!(class_names(&vec![]), "");
    assert_eq!(class_names(&vec!["a".to_string()]), "a");
    assert_eq!(class_names(&vec!["a".to_string(), "b c".to_string()]), "a b c");
}

#[test]
fn badge_and_avatar_classes() {
    assert_eq!(
        badge_classes(BadgeVariant::Success, BadgeSize::Lg, true, &Some("x".to_string())),
        "domius-badge domius-badge-success domius-badge-lg domius-badge-dot x"
    );
    assert_eq!(BadgeVariant::Neutral.as_class(), "domius-badge-neutral");
    assert_eq!(
        avatar_classes(AvatarSize::Xs, AvatarShape::Rounded, &None),
        "domius-avatar domius-avatar-xs domius-avatar-rounded"
    );
}

#[test]
fn avatar_initials_take_two_words() {
    assert_eq!(initials(&"ada lovelace byron".to_string()), "AL");
    assert_eq!(initials(&"  grace   hopper ".to_string()), "GH");
    assert_eq!(initials(&"ß".to_string()), "SS");
    assert_eq!(initials(&"".to_string()), "");
    assert_eq!(group_counts(6, 4), (4, 2));
    assert_eq!(group_counts(3, 4), (3, 0));
    assert_eq!(remaining_text(2), "+2");
}

#[test]
fn chart_text() {
    assert_eq!(ChartType::Donut.as_str(), "donut");
    assert_eq!(ChartType::Polar.as_str(), "polar");
    assert_eq!(chart_label(ChartType::Bar, 3), "bar chart with 3 data points");
    assert_eq!(chart_classes(&None), "domius-chart");
    assert_eq!(chart_extent(None, 400), 400);
    assert_eq!(chart_extent(Some(0), 400), 1);
    assert_eq!(chart_extent(Some(120), 400), 120);
}

#[test]
fn comments_and_messages() {
    let props = CommentProps::default();
    assert!(props.author.is_none() && props.children.is_none());
    assert!(!CommentListProps::default().show_count);
    assert_eq!(comment_classes(&Some("nested".to_string())), "comment nested");
    assert_eq!(count_text(12), "12 Comments");
    assert_eq!(message_classes(MessagePosition::Right, &None), "message message-right");
    assert_eq!(message_classes(MessagePosition::default(), &None), "message message-left");
    let mut read = MessageProps::default();
    read.read = true;
    assert!(!shows_read_mark(&read));
    read.position = MessagePosition::Right;
    assert!(shows_read_mark(&read));
}

#[test]
fn statistic_trend() {
    assert_eq!(shown_trend(Some(TrendType::Flat)), None);
    assert_eq!(shown_trend(Some(TrendType::Increase)), Some(TrendType::Increase));
    assert_eq!(trend_icon(TrendType::Decrease), "&#8595;");
    assert_eq!(statistic_card_classes(true, &None), "statistic-card statistic-card-bordered");
}

#[test]
fn timeline_classes_follow_orientation() {
    let props = TimelineProps::default();
    assert_eq!(props.orientation, TimelineOrientation::Vertical);
    assert_eq!(
        timeline_classes(TimelineOrientation::Horizontal, true, &Some("t".to_string())),
        "domius-timeline horizontal domius-timeline-alternate t"
    );
}

#[test]
fn progress_classes_and_labels() {
    assert_eq!(variant_token(&ProgressVariant::Circular), "circular");
    assert_eq!(ProgressSize::Lg.token(), "lg");
    assert_eq!(
        progress_classes(ProgressVariant::Linear, ProgressSize::Sm, true, &None),
        "domius-progress domius-progress-linear domius-progress-sm domius-progress-indeterminate"
    );
    assert_eq!(format_label(&"{value} of {max}".to_string(), 3, 8), "3 of 8");
    assert_eq!(format_label(&"{value}/{value}".to_string(), 7, 9), "7/7");
    let mut rt: Runtime<u8> = Runtime::new();
    let props = ProgressProps::new_in(&mut rt);
    assert_eq!(props.max, 100);
    assert_eq!(props.value.get(&mut rt), 0);
}

#[test]
fn skeleton_shapes() {
    assert_eq!(
        block_classes(SkeletonVariant::Circular, SkeletonAnimation::Wave, &None),
        "domius-skeleton domius-skeleton-circular domius-skeleton-wave"
    );
    assert_eq!(line_classes(SkeletonAnimation::Still), "domius-skeleton domius-skeleton-text-line");
    assert_eq!(circle_style(&None), "width: 40px; height: 40px;");
    assert_eq!(box_style(&Some("10px".to_string()), &Some("2em".to_string())), Some("width: 10px; height: 2em".to_string()));
    assert_eq!(box_style(&None, &None), None);
    assert!(is_short_line(2, 3));
    assert!(!is_short_line(0, 1));
}

#[test]
fn spinner_tokens() {
    let props = SpinnerProps::default();
    assert_eq!(props.size, SpinnerSize::Small);
    assert_eq!(SpinnerSize::Large.token(), "spinner-lg");
    assert_eq!(SpinnerType::Bars.mark_count(), 5);
    assert_eq!(SpinnerType::Dots.token(), "spinner-dots");
    assert_eq!(color_style(&"red".to_string()), "--spinner-color: red;");
}

#[test]
fn tooltip_ids_are_unique_and_wrap() {
    let mut sequence = 0u32;
    assert_eq!(next_tooltip_id(&mut sequence), "domius-tooltip-1");
    assert_eq!(next_tooltip_id(&mut sequence), "domius-tooltip-2");
    let mut last = u32::MAX;
    assert_eq!(next_tooltip_id(&mut last), "domius-tooltip-0");
    assert_eq!(TooltipPosition::BottomEnd.token(), "bottom-end");
    assert_eq!(hint_classes(TooltipPosition::Top, &None), "domius-tooltip domius-tooltip-top");
    assert_eq!(event_visibility(&"mouseenter".to_string(), 200), Some(Visibility::Show(200)));
    assert_eq!(event_visibility(&"focusin".to_string(), 200), Some(Visibility::Show(0)));
    assert_eq!(event_visibility(&"focusout".to_string(), 200), Some(Visibility::Hide));
    assert!(is_focusable(false, &"BUTTON".to_string()));
    assert!(is_focusable(true, &"div".to_string()));
    assert!(!is_focusable(false, &"div".to_string()));
}

#[test]
fn toast_manager_adds_and_removes() {
    let mut rt: Runtime<Vec<ToastData>> = Runtime::new();
    let manager = ToastManager::new(&mut rt);
    manager.info(&mut rt, "saved".to_string(), 1000);
    manager.error(&mut rt, "failed".to_string(), 2000);
    let list = rt.signals().get_untracked(manager.toasts);
    assert_eq!(list.len(), 2);
    assert_eq!(list[0].id, "toast-1000");
    assert_eq!(list[0].duration, Some(5000));
    assert_eq!(list[1].variant, ToastVariant::Error);
    assert_eq!(list[1].duration, Some(7000));
    manager.remove(&mut rt, &"toast-1000".to_string());
    let list = rt.signals().get_untracked(manager.toasts);
    assert_eq!(list.len(), 1);
    assert_eq!(list[0].message, "failed");
    assert_eq!(toast_id(42), "toast-42");
    assert_eq!(toast_classes(ToastVariant::Warning), "domius-toast domius-toast-warning");
    assert_eq!(ToastVariant::Success.as_icon(), "✓");
}

struct Counter(Rc<RefCell<u32>>);

impl Action for Counter {
    fn run(&self) {
        *self.0.borrow_mut() += 1;
    }
}

#[test]
fn infinite_scroll_loads_only_when_idle() {
    let mut rt: Runtime<bool> = Runtime::new();
    let has_more = signal(&mut rt, true);
    let loading = signal(&mut rt, false);
    let calls = Rc::new(RefCell::new(0));
    let action = Counter(Rc::clone(&calls));
    assert!(request_load(&mut rt, has_more, loading, &action));
    assert!(loading.get(&mut rt));
    assert!(!request_load(&mut rt, has_more, loading, &action));
    assert_eq!(*calls.borrow(), 1);
    assert_eq!(LoadStatus::from_flags(true, true).message(), "Loading more items");
    assert_eq!(LoadStatus::from_flags(false, false).message(), "All items loaded");
    assert_eq!(load_button_state(false, true), (false, false));
    assert_eq!(load_button_state(true, true), (false, true));
    assert_eq!(root_margin(100), "0px 0px 100px 0px");
}

#[test]
fn modal_defaults_and_classes() {
    let mut rt: Runtime<bool> = Runtime::new();
    let props = ModalProps::new_in(&mut rt);
    assert!(!props.open.get(&mut rt));
    assert_eq!(props.confirm_text.as_deref(), Some("OK"));
    assert_eq!(props.cancel_text.as_deref(), Some("Cancel"));
    assert_eq!(modal_classes(ModalSize::Full, &None), "domius-modal domius-modal-full");
}

#[test]
fn switch_flips() {
    let mut rt: Runtime<bool> = Runtime::new();
    let checked = signal(&mut rt, false);
    assert!(toggle(&mut rt, checked));
    assert!(checked.get(&mut rt));
    assert!(!toggle(&mut rt, checked));
    assert_eq!(switch_classes(SwitchSize::Sm, true, &None), "domius-switch domius-switch-sm domius-switch-disabled");
    assert_eq!(indent_style(2), "width: 40px;");
}

#[test]
fn media_flags_in_order() {
    let mut props = AudioPlayerProps::default();
    assert_eq!(audio_flags(&props), vec!["controls"]);
    props.auto_play = true;
    props.loop_audio = true;
    assert_eq!(audio_flags(&props), vec!["controls", "autoplay", "loop"]);
}

#[test]
fn anchor_follows_the_last_reached_section() {
    assert_eq!(current_index(&vec![]), Some(0));
    assert_eq!(current_index(&vec![false, false]), Some(0));
    assert_eq!(current_index(&vec![true, true, false]), Some(1));
    assert_eq!(current_index(&vec![true, false, true]), Some(2));
    assert_eq!(section_id(&"#intro".to_string()), Some("intro".to_string()));
    assert_eq!(section_id(&"intro".to_string()), None);
}

#[test]
fn breadcrumbs_link_all_but_the_current_page() {
    assert_eq!(BreadcrumbsProps::default().separator.as_deref(), Some("/"));
    let items = vec![
        BreadcrumbItem { label: "Home".to_string(), href: Some("/".to_string()), disabled: false },
        BreadcrumbItem { label: "Docs".to_string(), href: Some("/docs".to_string()), disabled: true },
        BreadcrumbItem { label: "Page".to_string(), href: Some("/docs/p".to_string()), disabled: false },
    ];
    let views = crumb_views(&items);
    assert_eq!(views[0].link.as_deref(), Some("/"));
    assert!(views[0].separated && !views[0].current);
    assert_eq!(views[1].link, None);
    assert_eq!(views[2].link, None);
    assert!(views[2].current && !views[2].separated);
}

#[test]
fn navbar_texts() {
    assert_eq!(navbar_classes(true, false, &None), "domius-navbar domius-navbar-fixed");
    assert_eq!(logo_alt(&None), "Home");
    let link = NavLink { label: "Blog".to_string(), href: None, active: false, icon: None, children: vec![] };
    assert_eq!(link_target(&link), "Blog");
}

#[test]
fn tabs_start_on_the_default_or_first_tab() {
    let tabs = vec![
        Tab { id: "one".to_string(), label: "One".to_string(), disabled: false, icon: Some("*".to_string()) },
        Tab { id: "two".to_string(), label: "Two".to_string(), disabled: true, icon: None },
    ];
    assert_eq!(initial_active(&None, &tabs), "one");
    assert_eq!(initial_active(&Some("two".to_string()), &tabs), "two");
    assert_eq!(initial_active(&None, &vec![]), "");
    assert_eq!(tab_text(&tabs[0]), "* One");
    assert_eq!(tab_text(&tabs[1]), "Two");
    assert_eq!(tabs_classes(TabOrientation::Vertical, &None), "domius-tabs domius-tabs-vertical");
    let mut rt: Runtime<String> = Runtime::new();
    let active = signal(&mut rt, "one".to_string());
    assert!(!activate(&mut rt, active, &tabs[1]));
    assert_eq!(active.get(&mut rt), "one");
    assert!(activate(&mut rt, active, &tabs[0]));
}
