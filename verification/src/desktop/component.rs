//! Component system for desktop applications: components provide state and
//! window configuration.
use vstd::prelude::*;
use crate::runtime::{Runtime, ScopeId};
use crate::signal::{EffectId, Signal};
use crate::text::{decimal, push_decimal, push_str};

verus! {

/// Trait for desktop components, mounted into windows owned by the runtime.
pub trait DomiusDesktopComponent {
    /// Props type for this component.
    type Props: Clone;
    /// State type for this component.
    type State;

    /// Set up the component state from props.
    fn setup(props: Self::Props) -> Self::State;

    /// The window title; "Domus App" unless the component says otherwise.
    fn title(_state: &Self::State) -> (t: String)
        default_ensures
            t@ == "Domus App"@,
    {
        "Domus App".to_owned()
    }

    /// The window label (for internal tracking); "domus_window" unless the
    /// component says otherwise.
    fn label() -> (l: &'static str)
        default_ensures
            l@ == "domus_window"@,
    {
        "domus_window"
    }

    /// The initial window size (width, height); 800 by 600 unless the
    /// component says otherwise.
    fn window_size() -> (size: (u32, u32))
        default_ensures
            size == (800u32, 600u32),
    {
        (800, 600)
    }

    /// The URL to load in the webview; "index.html" unless the component
    /// says otherwise.
    fn url() -> (u: &'static str)
        default_ensures
            u@ == "index.html"@,
    {
        "index.html"
    }
}

/// Associates a component scope with a window.
#[derive(Debug, Clone)]
pub struct ComponentScope {
    /// The scope owning the component's effects.
    pub scope_id: ScopeId,
    /// The label of the window showing the component.
    pub window_label: String,
}

/// Build the configuration of a window for component `C`: set the component
/// up, create a fresh top-level scope for it, and return the scope, the
/// window label (`C::label()`, `_` and the scope number), the title and the size.
pub fn build_window_config<C: DomiusDesktopComponent, V>(
    rt: &mut Runtime<V>,
    props: C::Props,
) -> (config: (ScopeId, String, String, (u32, u32)))
    requires
        old(rt).wf(),
    ensures
        final(rt).wf(),
        config.0.id() == old(rt).scope_count(),
        final(rt).scope_count() == old(rt).scope_count() + 1,
        final(rt).scope_alive(config.0),
        final(rt).scope_parent(config.0) == None::<ScopeId>,
        exists|label: &'static str|
            call_ensures(C::label, (), label) && config.1@ == label@ + "_"@ + decimal(config.0.id()),
        exists|state: C::State|
            call_ensures(C::setup, (props,), state) && call_ensures(C::title, (&state,), config.2),
        call_ensures(C::window_size, (), config.3),
        final(rt).store() == old(rt).store(),
        final(rt).effect_count() == old(rt).effect_count(),
{
    let ghost given = props;
    let state = C::setup(props);
    let scope = rt.create_scope(None);
    let label = C::label();
    let mut window_label = label.to_owned();
    push_str(&mut window_label, "_");
    push_decimal(&mut window_label, scope.value());
    let title = C::title(&state);
    let (width, height) = C::window_size();
    assert(call_ensures(C::setup, (given,), state) && call_ensures(C::title, (&state,), title));
    assert(call_ensures(C::label, (), label));
    (scope, window_label, title, (width, height))
}

/// Dispose a component's scope when its window closes.
pub fn cleanup_component_scope<V>(rt: &mut Runtime<V>, scope_id: ScopeId)
    requires
        old(rt).wf(),
    ensures
        final(rt).wf(),
        !final(rt).scope_alive(scope_id),
        final(rt).effect_count() == old(rt).effect_count(),
        final(rt).scope_count() == old(rt).scope_count(),
        forall|s: ScopeId|
            s.id() < old(rt).scope_count() ==> final(rt).scope_alive(s) == (old(rt).scope_alive(s) && !old(rt).within(s, scope_id))
                && final(rt).scope_parent(s) == old(rt).scope_parent(s),
        forall|e: EffectId|
            e.id() < old(rt).effect_count() ==> final(rt).effect_alive(e) == (old(rt).effect_alive(e) && !old(rt).doomed(e.id() as int, scope_id))
                && final(rt).effect_scope(e) == old(rt).effect_scope(e),
        forall|e: EffectId|
            e.id() < old(rt).effect_count() && old(rt).effect_scope(e) == Some(scope_id) ==> !final(rt).effect_alive(e),
        final(rt).store().len() == old(rt).store().len(),
        forall|t: Signal| old(rt).store().holds(t) ==> final(rt).store().value(t) == old(rt).store().value(t),
        forall|e: EffectId, t: Signal|
            e.id() < old(rt).effect_count() && old(rt).doomed(e.id() as int, scope_id) && old(rt).store().holds(t)
                ==> !(#[trigger] final(rt).store().subscribers(t).contains(e)) && !final(rt).store().pending().contains(e),
{
    crate::runtime::dispose_scope(rt, scope_id);
}

/// The content URL declared by a desktop component: what its `url` returns.
pub fn get_component_url<C: DomiusDesktopComponent>() -> (u: &'static str)
    ensures
        call_ensures(C::url, (), u),
{
    C::url()
}

} // verus!
