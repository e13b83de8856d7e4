use domius::codegen::{text_var, ExprShape};
use domius::rsx::{plan, AttrValue, ChildPlan, NodePlan, RsxAttr, RsxNode};

fn name(s: &str) -> ExprShape {
    ExprShape::Path(Some(s.to_string()))
}

/// `|_| <receiver>.set(..)`
fn setter_closure(receiver: &str) -> ExprShape {
    ExprShape::Closure(Box::new(ExprShape::MethodCall(Box::new(name(receiver)))))
}

fn element(tag: &str, attrs: Vec<(&str, RsxAttr)>, children: Vec<RsxNode>) -> RsxNode {
    RsxNode::Element {
        tag: tag.to_string(),
        attrs: attrs.into_iter().map(|(n, v)| (n.to_string(), v)).collect(),
        children,
    }
}

fn literal(s: &str) -> RsxAttr {
    RsxAttr::Literal(format!("\"{}\"", s))
}

fn text(s: &str) -> RsxNode {
    RsxNode::Text(format!("\"{}\"", s))
}

struct Parts<'a> {
    id: usize,
    tag: &'a str,
    attrs: &'a Vec<domius::rsx::StaticAttr>,
    bound: &'a Vec<domius::rsx::BoundAttr>,
    listeners: &'a Vec<domius::rsx::Listener>,
    children: &'a Vec<ChildPlan>,
}

fn parts(p: &NodePlan) -> Parts<'_> {
    match p {
        NodePlan::Element { id, tag, attrs, bound, listeners, children } => Parts {
            id: *id,
            tag: tag.as_str(),
            attrs,
            bound,
            listeners,
            children,
        },
        _ => panic!("expected an element plan"),
    }
}

fn appended(c: &ChildPlan) -> &NodePlan {
    match c {
        ChildPlan::Appended(p) => p,
        ChildPlan::Bound { .. } => panic!("expected an appended child"),
    }
}

#[test]
fn plan_static_element_sets_attribute_and_appends_text() {
    // div(class: "btn") { "Click" }
    let p = plan(&element("div", vec![("class", literal("btn"))], vec![text("Click")]));
    let e = parts(&p);
    assert_eq!(e.id, 0);
    assert_eq!(e.tag, "div");
    assert_eq!(e.attrs.len(), 1);
    assert_eq!(e.attrs[0].name, "class");
    assert!(matches!(&e.attrs[0].value, AttrValue::Text(t) if t == "btn"));
    assert!(e.bound.is_empty());
    assert!(e.listeners.is_empty());
    assert_eq!(e.children.len(), 1);
    assert!(matches!(appended(&e.children[0]), NodePlan::Text(t) if t == "Click"));
}

#[test]
fn plan_identifier_attribute_keeps_the_variable() {
    // input(value: current)
    let p = plan(&element("input", vec![("value", RsxAttr::Ident("current".to_string()))], vec![]));
    let e = parts(&p);
    assert!(matches!(&e.attrs[0].value, AttrValue::Ident(v) if v == "current"));
}

#[test]
fn plan_numbers_elements_in_document_order() {
    // div { span { } p { } }
    let p = plan(&element("div", vec![], vec![element("span", vec![], vec![]), element("p", vec![], vec![])]));
    let e = parts(&p);
    assert_eq!(e.id, 0);
    assert_eq!(parts(appended(&e.children[0])).id, 1);
    assert_eq!(parts(appended(&e.children[1])).id, 2);
    assert_eq!(parts(appended(&e.children[1])).tag, "p");
}

#[test]
fn plan_dynamic_text_child_is_bound_with_its_captures() {
    // span { {count} }
    let p = plan(&element("span", vec![], vec![RsxNode::Dynamic(name("count"), 0)]));
    let e = parts(&p);
    match &e.children[0] {
        ChildPlan::Bound { id, binding } => {
            assert_eq!(*id, 1);
            assert_eq!(text_var(*id), "__dyn_1");
            assert_eq!(binding.expr, 0);
            assert_eq!(binding.captures, vec!["count"]);
        }
        ChildPlan::Appended(_) => panic!("expected a bound text node"),
    }
}

#[test]
fn plan_dynamic_attribute_is_bound_not_set() {
    // div(class: {theme}) { }
    let p = plan(&element("div", vec![("class", RsxAttr::Dynamic(name("theme"), 0))], vec![]));
    let e = parts(&p);
    assert!(e.attrs.is_empty());
    assert_eq!(e.bound.len(), 1);
    assert_eq!(e.bound[0].name, "class");
    assert_eq!(e.bound[0].binding.captures, vec!["theme"]);
}

#[test]
fn plan_two_handlers_get_listeners_in_order() {
    // div(on_click: |_| a.set(1), on_mouseout: |_| b.set(2)) { }
    let p = plan(&element(
        "div",
        vec![
            ("on_click", RsxAttr::Dynamic(setter_closure("a"), 0)),
            ("on_mouseout", RsxAttr::Dynamic(setter_closure("b"), 1)),
        ],
        vec![],
    ));
    let e = parts(&p);
    assert!(e.attrs.is_empty());
    assert!(e.bound.is_empty());
    assert_eq!(e.listeners.len(), 2);
    assert_eq!(e.listeners[0].id, 1);
    assert_eq!(e.listeners[0].setter, "set_onclick");
    assert_eq!(e.listeners[0].event_type, "web_sys::MouseEvent");
    assert_eq!(e.listeners[0].binding.captures, vec!["a"]);
    assert_eq!(e.listeners[1].id, 2);
    assert_eq!(e.listeners[1].setter, "set_onmouseout");
    assert_eq!(e.listeners[1].binding.expr, 1);
}

#[test]
fn plan_input_handler_takes_input_event() {
    // input(on_input: |_| count.set(1))
    let p = plan(&element("input", vec![("on_input", RsxAttr::Dynamic(setter_closure("count"), 0))], vec![]));
    let e = parts(&p);
    assert_eq!(e.listeners[0].setter, "set_oninput");
    assert_eq!(e.listeners[0].event_type, "web_sys::InputEvent");
}

#[test]
fn plan_handler_name_without_expression_is_dropped() {
    // button(on_click: "nothing") { }
    let p = plan(&element("button", vec![("on_click", literal("nothing"))], vec![]));
    let e = parts(&p);
    assert!(e.attrs.is_empty());
    assert!(e.bound.is_empty());
    assert!(e.listeners.is_empty());
}

#[test]
fn plan_listeners_take_numbers_before_children() {
    // div(on_click: |_| go.set(1)) { {x} span { } }
    let p = plan(&element(
        "div",
        vec![("on_click", RsxAttr::Dynamic(setter_closure("go"), 0))],
        vec![RsxNode::Dynamic(name("x"), 1), element("span", vec![], vec![])],
    ));
    let e = parts(&p);
    assert_eq!(e.listeners[0].id, 1);
    assert!(matches!(&e.children[0], ChildPlan::Bound { id: 2, .. }));
    assert_eq!(parts(appended(&e.children[1])).id, 3);
}

#[test]
fn plan_mixed_static_and_dynamic_children() {
    // div { "Static " {dynamic_val} }
    let p = plan(&element("div", vec![], vec![text("Static "), RsxNode::Dynamic(name("dynamic_val"), 0)]));
    let e = parts(&p);
    assert!(matches!(appended(&e.children[0]), NodePlan::Text(t) if t == "Static "));
    match &e.children[1] {
        ChildPlan::Bound { binding, .. } => assert_eq!(binding.captures, vec!["dynamic_val"]),
        ChildPlan::Appended(_) => panic!("expected a bound text node"),
    }
}

#[test]
fn plan_top_level_expression_fails() {
    let p = plan(&RsxNode::Dynamic(name("x"), 0));
    assert!(matches!(p, NodePlan::Fail(m) if m == "Dynamic node must be inside an element"));
}

#[test]
fn plan_component_fails_with_its_name() {
    let p = plan(&RsxNode::Component { name: "Card".to_string() });
    assert!(matches!(p, NodePlan::Fail(m) if m == "component <Card> not yet supported"));
}

#[test]
fn plan_component_child_is_appended_failure() {
    let p = plan(&element("div", vec![], vec![RsxNode::Component { name: "Card".to_string() }]));
    let e = parts(&p);
    assert!(matches!(appended(&e.children[0]), NodePlan::Fail(m) if m == "component <Card> not yet supported"));
}

fn declared_ids(p: &NodePlan, out: &mut Vec<usize>) {
    if let NodePlan::Element { id, listeners, children, .. } = p {
        out.push(*id);
        for l in listeners {
            out.push(l.id);
        }
        for c in children {
            match c {
                ChildPlan::Bound { id, .. } => out.push(*id),
                ChildPlan::Appended(child) => declared_ids(child, out),
            }
        }
    }
}

#[test]
fn plan_variable_numbers_count_up_without_repeats() {
    // ul(on_click: |_| pick.set(1)) { li { {a} } li(on_focus: |_| f.set(0)) { {b} "x" } {c} }
    let tree = element(
        "ul",
        vec![("on_click", RsxAttr::Dynamic(setter_closure("pick"), 0))],
        vec![
            element("li", vec![], vec![RsxNode::Dynamic(name("a"), 1)]),
            element(
                "li",
                vec![("on_focus", RsxAttr::Dynamic(setter_closure("f"), 2))],
                vec![RsxNode::Dynamic(name("b"), 3), text("x")],
            ),
            RsxNode::Dynamic(name("c"), 4),
        ],
    );
    let mut ids = Vec::new();
    declared_ids(&plan(&tree), &mut ids);
    assert_eq!(ids, vec![0, 1, 2, 3, 4, 5, 6, 7]);
}
