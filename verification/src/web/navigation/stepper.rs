//! Stepper: a multi-step process.
use vstd::prelude::*;
use crate::web::Handler;

verus! {

/// A step of the process.
#[derive(Clone)]
pub struct Step {
    pub title: String,
    pub subtitle: Option<String>,
    pub description: Option<String>,
    pub icon: Option<String>,
    pub optional: bool,
}

/// Stepper orientation.
#[derive(Clone, Copy, PartialEq, Eq, Debug, Structural)]
pub enum StepperOrientation {
    Horizontal,
    Vertical,
}

impl Default for StepperOrientation {
    fn default() -> (r: Self)
        ensures
            r == StepperOrientation::Horizontal,
    {
        StepperOrientation::Horizontal
    }
}

/// Props for the Stepper component.
pub struct StepperProps {
    pub steps: Vec<Step>,
    pub active_step: Option<usize>,
    pub completed_steps: Vec<usize>,
    pub orientation: StepperOrientation,
    pub on_step_change: Option<Box<dyn Handler<usize>>>,
    pub class: Option<String>,
}

impl Default for StepperProps {
    fn default() -> (r: Self)
        ensures
            r.steps@.len() == 0,
            r.active_step == Some(0usize),
            r.completed_steps@.len() == 0,
            r.orientation == StepperOrientation::Horizontal,
            r.on_step_change is None,
            r.class is None,
    {
        StepperProps {
            steps: Vec::new(),
            active_step: Some(0),
            completed_steps: Vec::new(),
            orientation: StepperOrientation::Horizontal,
            on_step_change: None,
            class: None,
        }
    }
}

/// The Stepper component.
pub struct Stepper;

} // verus!
