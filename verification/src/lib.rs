use vstd::prelude::*;

pub mod codegen;
pub mod computed;
pub mod css_scoper;
pub mod desktop;
pub mod runtime;
pub mod rsx;
pub mod scaffold;
pub mod signal;
pub mod text;
pub mod web;

verus! {
} // verus!
