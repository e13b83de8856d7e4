// The component model: a component builds its state from its props.

trait TestComponent {
    type Props;
    type State;
    fn setup(props: Self::Props) -> Self::State;
}

struct StatefulComponent;

struct ButtonProps {
    label: String,
    disabled: bool,
}

struct ButtonState {
    label: String,
    disabled: bool,
    click_count: u32,
}

impl TestComponent for StatefulComponent {
    type Props = ButtonProps;
    type State = ButtonState;

    fn setup(props: ButtonProps) -> ButtonState {
        ButtonState {
            label: props.label,
            disabled: props.disabled,
            click_count: 0,
        }
    }
}

#[test]
fn test_component_setup_builds_state_from_props() {
    let props = ButtonProps {
        label: "Click me".to_string(),
        disabled: false,
    };
    let state = StatefulComponent::setup(props);
    assert_eq!(state.label, "Click me");
    assert!(!state.disabled);
    assert_eq!(state.click_count, 0);
}

#[test]
fn test_component_state_is_independent_per_instance() {
    let state_a = StatefulComponent::setup(ButtonProps {
        label: "A".to_string(),
        disabled: false,
    });
    let state_b = StatefulComponent::setup(ButtonProps {
        label: "B".to_string(),
        disabled: true,
    });
    assert_ne!(state_a.label, state_b.label);
    assert_ne!(state_a.disabled, state_b.disabled);
}

struct UnitComp;

impl TestComponent for UnitComp {
    type Props = ();
    type State = u32;
    fn setup(_: ()) -> u32 {
        42
    }
}

#[test]
fn test_unit_props_component() {
    let state = UnitComp::setup(());
    assert_eq!(state, 42);
}

struct ComputedComp;

struct ComputedProps {
    values: Vec<i32>,
}

struct ComputedState {
    sum: i32,
    count: usize,
}

impl TestComponent for ComputedComp {
    type Props = ComputedProps;
    type State = ComputedState;
    fn setup(props: ComputedProps) -> ComputedState {
        ComputedState {
            sum: props.values.iter().sum(),
            count: props.values.len(),
        }
    }
}

#[test]
fn test_component_with_computed_initial_state() {
    let state = ComputedComp::setup(ComputedProps {
        values: vec![1, 2, 3, 4],
    });
    assert_eq!(state.sum, 10);
    assert_eq!(state.count, 4);
}
