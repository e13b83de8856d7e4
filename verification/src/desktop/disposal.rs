//! Automatic disposal: closing a window disposes the scope of its component.
use vstd::prelude::*;
use crate::runtime::{Runtime, ScopeId};
use crate::signal::{EffectId, Signal};

verus! {

/// Initialize event listeners for automatic scope disposal. Windows report
/// their closing through `on_window_close`; nothing needs registering here.
pub fn init_event_listeners() {
}

/// Dispose a scope when its window is closed.
pub fn on_window_close<V>(rt: &mut Runtime<V>, scope_id: ScopeId)
    requires
        old(rt).wf(),
    ensures
        final(rt).wf(),
        !final(rt).scope_alive(scope_id),
        final(rt).effect_count() == old(rt).effect_count(),
        final(rt).scope_count() == old(rt).scope_count(),
        forall|s: ScopeId|
            s.id() < old(rt).scope_count() ==> final(rt).scope_alive(s) == (old(rt).scope_alive(s) && !old(rt).within(s, scope_id))
                && final(rt).scope_parent(s) == old(rt).scope_parent(s),
        forall|e: EffectId|
            e.id() < old(rt).effect_count() ==> final(rt).effect_alive(e) == (old(rt).effect_alive(e) && !old(rt).doomed(e.id() as int, scope_id))
                && final(rt).effect_scope(e) == old(rt).effect_scope(e),
        forall|e: EffectId|
            e.id() < old(rt).effect_count() && old(rt).effect_scope(e) == Some(scope_id) ==> !final(rt).effect_alive(e),
        final(rt).store().len() == old(rt).store().len(),
        forall|t: Signal| old(rt).store().holds(t) ==> final(rt).store().value(t) == old(rt).store().value(t),
        forall|e: EffectId, t: Signal|
            e.id() < old(rt).effect_count() && old(rt).doomed(e.id() as int, scope_id) && old(rt).store().holds(t)
                ==> !(#[trigger] final(rt).store().subscribers(t).contains(e)) && !final(rt).store().pending().contains(e),
{
    crate::runtime::dispose_scope(rt, scope_id);
}

} // verus!
