use std::sync::{Arc, Mutex};

use domius::desktop::component::{
    build_window_config, cleanup_component_scope, get_component_url, DomiusDesktopComponent,
};
use domius::desktop::context::{
    has_context, provide_context, remove_context, use_context, ContextRegistry,
};
use domius::desktop::disposal::{init_event_listeners, on_window_close};
use domius::desktop::event::{use_event_signal, DesktopEvent, EventBridge, EventHandler};
use domius::desktop::init;
use domius::runtime::{create_scope, Runtime};

#[derive(Clone)]
struct TestProps {
    value: i32,
}

struct TestState {
    value: i32,
}

struct TestComponent;

impl DomiusDesktopComponent for TestComponent {
    type Props = TestProps;
    type State = TestState;

    fn setup(props: Self::Props) -> Self::State {
        TestState { value: props.value }
    }

    fn title(state: &Self::State) -> String {
        format!("Test: {}", state.value)
    }

    fn url() -> &'static str {
        "test.html"
    }
}

struct PlainComponent;

impl DomiusDesktopComponent for PlainComponent {
    type Props = ();
    type State = ();

    fn setup(_props: ()) {}
}

#[test]
fn component_trait_works() {
    let state = TestComponent::setup(TestProps { value: 42 });
    assert_eq!(state.value, 42);
    assert_eq!(TestComponent::title(&state), "Test: 42");
}

#[test]
fn window_size_default() {
    assert_eq!(TestComponent::window_size(), (800, 600));
}

#[test]
fn build_config_returns_values() {
    let mut rt: Runtime<i32> = Runtime::new();
    let (scope, label, title, size) =
        build_window_config::<TestComponent, i32>(&mut rt, TestProps { value: 10 });
    assert_eq!(title, "Test: 10");
    assert!(label.starts_with("domus_window_"));
    assert_eq!(size, (800, 600));
    cleanup_component_scope(&mut rt, scope);
}

#[test]
fn window_label_carries_the_scope_number() {
    let mut rt: Runtime<i32> = Runtime::new();
    let (first, first_label, _, _) = build_window_config::<TestComponent, i32>(&mut rt, TestProps { value: 1 });
    let (second, second_label, _, _) = build_window_config::<TestComponent, i32>(&mut rt, TestProps { value: 2 });
    assert_eq!(first_label, format!("domus_window_{}", first.value()));
    assert_eq!(second_label, format!("domus_window_{}", second.value()));
    assert_ne!(first_label, second_label);
}

#[test]
fn cleanup_disposes_the_window_scope() {
    let mut rt: Runtime<i32> = Runtime::new();
    let (scope, _, _, _) = build_window_config::<TestComponent, i32>(&mut rt, TestProps { value: 3 });
    assert!(rt.is_scope_alive(scope));
    cleanup_component_scope(&mut rt, scope);
    assert!(!rt.is_scope_alive(scope));
}

#[test]
fn component_defaults() {
    assert_eq!(PlainComponent::title(&()), "Domus App");
    assert_eq!(PlainComponent::label(), "domus_window");
    assert_eq!(PlainComponent::url(), "index.html");
    assert_eq!(get_component_url::<PlainComponent>(), "index.html");
    assert_eq!(get_component_url::<TestComponent>(), "test.html");
}

#[derive(Clone, Debug, PartialEq)]
struct AppConfig {
    theme: String,
}

#[test]
fn context_provide_and_use() {
    let mut registry = ContextRegistry::new();
    provide_context(
        &mut registry,
        AppConfig {
            theme: "dark".into(),
        },
    );

    let config = use_context::<AppConfig>(&registry);
    assert!(config.is_some());
    assert_eq!(config.unwrap().theme, "dark");
}

#[derive(Clone)]
struct PresenceMarker;

#[test]
fn context_has_context() {
    let mut registry = ContextRegistry::new();
    provide_context(&mut registry, PresenceMarker);

    assert!(has_context::<PresenceMarker>(&registry));
    let others: ContextRegistry<Vec<i32>> = ContextRegistry::new();
    assert!(!has_context::<Vec<i32>>(&others));
}

#[derive(Clone, Debug, PartialEq)]
struct RemovableConfig {
    theme: String,
}

#[test]
fn context_remove() {
    let mut registry = ContextRegistry::new();
    provide_context(
        &mut registry,
        RemovableConfig {
            theme: "auto".into(),
        },
    );

    let removed = remove_context::<RemovableConfig>(&mut registry);
    assert_eq!(removed.unwrap().theme, "auto");
    assert!(!has_context::<RemovableConfig>(&registry));
}

#[test]
fn providing_again_replaces_the_value() {
    let mut registry = ContextRegistry::new();
    provide_context(&mut registry, AppConfig { theme: "dark".into() });
    provide_context(&mut registry, AppConfig { theme: "light".into() });
    assert_eq!(use_context::<AppConfig>(&registry).unwrap().theme, "light");
    assert_eq!(remove_context::<AppConfig>(&mut registry).unwrap().theme, "light");
    assert!(remove_context::<AppConfig>(&mut registry).is_none());
    assert!(use_context::<AppConfig>(&registry).is_none());
}

#[test]
fn init_does_not_panic() {
    init_event_listeners();
    init();
}

#[test]
fn on_window_close_disposes_scope() {
    let mut rt: Runtime<i32> = Runtime::new();
    let scope = create_scope(&mut rt, None);
    on_window_close(&mut rt, scope);
    assert!(!rt.is_scope_alive(scope));
}

struct Recorder {
    received: Arc<Mutex<Vec<String>>>,
}

impl EventHandler for Recorder {
    fn handle(&self, event: DesktopEvent) {
        self.received
            .lock()
            .expect("received event lock should not be poisoned")
            .push(format!("{:?}", event));
    }
}

#[test]
fn event_bridge_emit_and_handle() {
    let mut bridge = EventBridge::new();
    let received = Arc::new(Mutex::new(Vec::new()));

    bridge.on(Box::new(Recorder {
        received: Arc::clone(&received),
    }));

    bridge.emit(DesktopEvent::WindowFocus);
    bridge.emit(DesktopEvent::WindowBlur);

    assert_eq!(
        received
            .lock()
            .expect("received event lock should not be poisoned")
            .len(),
        2
    );
}

struct CustomCatcher {
    received: Arc<Mutex<Option<(String, String)>>>,
}

impl EventHandler for CustomCatcher {
    fn handle(&self, event: DesktopEvent) {
        if let DesktopEvent::Custom { name, payload } = event {
            *self
                .received
                .lock()
                .expect("received event lock should not be poisoned") = Some((name, payload));
        }
    }
}

#[test]
fn event_bridge_custom_event() {
    let mut bridge = EventBridge::new();
    let received = Arc::new(Mutex::new(None));

    bridge.on(Box::new(CustomCatcher {
        received: Arc::clone(&received),
    }));

    bridge.emit(DesktopEvent::Custom {
        name: "test".into(),
        payload: "data".into(),
    });

    assert_eq!(
        *received
            .lock()
            .expect("received event lock should not be poisoned"),
        Some(("test".into(), "data".into()))
    );
}

#[test]
fn every_handler_sees_each_event_in_order() {
    let mut bridge = EventBridge::new();
    let first = Arc::new(Mutex::new(Vec::new()));
    let second = Arc::new(Mutex::new(Vec::new()));
    bridge.on(Box::new(Recorder { received: Arc::clone(&first) }));
    bridge.on(Box::new(Recorder { received: Arc::clone(&second) }));
    assert_eq!(bridge.len(), 2);
    bridge.emit(DesktopEvent::WindowClose { scope_id: 7 });
    bridge.emit(DesktopEvent::WindowFocus);
    let expected = vec!["WindowClose { scope_id: 7 }".to_string(), "WindowFocus".to_string()];
    assert_eq!(*first.lock().unwrap(), expected);
    assert_eq!(*second.lock().unwrap(), expected);
}

#[test]
fn event_signal_holds_its_initial_value() {
    let mut rt: Runtime<i32> = Runtime::new();
    let s = use_event_signal(&mut rt, "resize", 5);
    assert_eq!(s.get(&mut rt), 5);
}
