use domius::codegen::{
    analyze_expr, clone_name, element_var, event_name, event_type_and_setter, handler_var,
    is_handler_attr, renamed, unquote, ExprShape, NameCounter,
};

fn ident(name: &str) -> ExprShape {
    ExprShape::Path(Some(name.to_string()))
}

#[test]
fn test_analyze_expr_simple_ident() {
    let vars = analyze_expr(&ident("count"));
    assert_eq!(vars, vec!["count"]);
}

#[test]
fn test_analyze_expr_method_call() {
    // signal.get()
    let vars = analyze_expr(&ExprShape::MethodCall(Box::new(ident("signal"))));
    assert_eq!(vars, vec!["signal"]);
}

#[test]
fn test_analyze_expr_binary() {
    // a + b
    let vars = analyze_expr(&ExprShape::Binary(Box::new(ident("a")), Box::new(ident("b"))));
    assert!(vars.contains(&"a".to_string()));
    assert!(vars.contains(&"b".to_string()));
}

#[test]
fn test_analyze_expr_no_clone_for_literals() {
    // 42
    let vars = analyze_expr(&ExprShape::Other);
    assert!(vars.is_empty());
}

#[test]
fn test_analyze_expr_no_clone_for_booleans() {
    let vars = analyze_expr(&ident("true"));
    assert!(vars.is_empty());
}

#[test]
fn test_substitute_clones_renames_idents() {
    let idents = vec!["count".to_string()];
    assert_eq!(renamed(&"count".to_string(), &idents), Some("count_clone".to_string()));
    assert_eq!(renamed(&"get".to_string(), &idents), None);
}

#[test]
fn captures_are_sorted_and_unique() {
    // move || { total.set(b + a); f(a, None, (c)) }
    let expr = ExprShape::Closure(Box::new(ExprShape::Block(vec![
        ExprShape::MethodCall(Box::new(ident("total"))),
        ExprShape::Call(
            Box::new(ident("f")),
            vec![ident("a"), ident("None"), ExprShape::Paren(Box::new(ident("c")))],
        ),
        ExprShape::Binary(Box::new(ident("b")), Box::new(ident("a"))),
        ExprShape::Field(Box::new(ExprShape::Reference(Box::new(ident("state"))))),
        ExprShape::Path(None),
    ])));
    assert_eq!(analyze_expr(&expr), vec!["a", "b", "c", "f", "state", "total"]);
}

#[test]
fn event_types_and_setters() {
    let (ty, setter) = event_type_and_setter(&"input".to_string());
    assert_eq!(ty, "web_sys::InputEvent");
    assert_eq!(setter, "set_oninput");
    assert_eq!(event_type_and_setter(&"dblclick".to_string()).0, "web_sys::MouseEvent");
    assert_eq!(event_type_and_setter(&"keyup".to_string()).0, "web_sys::KeyboardEvent");
    assert_eq!(event_type_and_setter(&"submit".to_string()).0, "web_sys::SubmitEvent");
    assert_eq!(event_type_and_setter(&"blur".to_string()).0, "web_sys::FocusEvent");
    assert_eq!(event_type_and_setter(&"scroll".to_string()), ("web_sys::Event".to_string(), "set_onscroll".to_string()));
}

#[test]
fn names_of_generated_variables() {
    let mut counter = NameCounter::new();
    assert_eq!(counter.next_id(), 0);
    assert_eq!(counter.next_id(), 1);
    counter.reset_counter();
    assert_eq!(counter.next_id(), 0);
    assert_eq!(element_var(2), "__el_2");
    assert_eq!(handler_var(0), "__handler_0");
    assert_eq!(clone_name(&"count".to_string()), "count_clone");
}

#[test]
fn attribute_helpers() {
    assert_eq!(event_name(&"on_click".to_string()), "click");
    assert_eq!(event_name(&"on_on_input".to_string()), "input");
    assert_eq!(event_name(&"class".to_string()), "class");
    assert!(is_handler_attr(&"on_click".to_string()));
    assert!(!is_handler_attr(&"one".to_string()));
    assert_eq!(unquote(&"\"card\"".to_string()), "card");
    assert_eq!(unquote(&"\"\"".to_string()), "");
    assert_eq!(unquote(&"plain".to_string()), "plain");
}
