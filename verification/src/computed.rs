//! Computed (derived, memoised) values.
//!
//! A computed value is a signal written by an effect: the effect evaluates
//! its computation, tracking the signals it reads, and stores the result.
//! The computation runs once when the value is created (to obtain its
//! initial value), once more as an effect (to record its dependencies), and
//! again whenever one of its dependencies changes.
use vstd::prelude::*;
use crate::runtime::{Computation, Runtime, ScopeId};
use crate::signal::{EffectId, Signal, SignalStore};

verus! {

/// A value derived from other signals and kept up to date.
#[derive(Clone, Copy, PartialEq, Eq, Debug, Structural)]
pub struct Computed {
    value: Signal,
}

impl Computed {
    /// The signal holding the current value.
    pub closed spec fn holder(self) -> Signal {
        self.value
    }

    /// Create a computed value from a computation.
    pub fn new<V>(rt: &mut Runtime<V>, f: Box<dyn Computation<V>>) -> (c: Computed)
        requires
            old(rt).wf(),
        ensures
            final(rt).wf(),
            old(rt).keeps_disposed_idle(*final(rt)),
            final(rt).effect_count() == old(rt).effect_count() + 1,
            final(rt).effect_alive(EffectId::spec_from_index(old(rt).effect_count())),
            final(rt).effect_target(EffectId::spec_from_index(old(rt).effect_count())) == Some(
                c.holder(),
            ),
            final(rt).effect_scope(EffectId::spec_from_index(old(rt).effect_count())) == None::<
                ScopeId,
            >,
            c.holder().id() >= old(rt).store().len(),
            final(rt).store().holds(c.holder()),
            final(rt).run_count(EffectId::spec_from_index(old(rt).effect_count())) >= 1,
            f.writes().is_empty() && !f.reads().contains(c.holder()) && old(rt).store().pending().len() == 0
                ==> final(rt).run_count(EffectId::spec_from_index(old(rt).effect_count())) == 1,
            f.writes().is_empty() && !f.reads().contains(c.holder()) && old(rt).store().pending().len() == 0
                ==> (f.result(old(rt).store().values()) matches Some(v0) ==> (f.result(
                old(rt).store().values().push(v0),
            ) matches Some(v1) ==> c.holder().id() == old(rt).store().len() && final(rt).store().value(c.holder())
                == v1 && final(rt).store().values() == old(rt).store().values().push(v1))),
    {
        let initial = rt.evaluate_untracked(&f);
        let ghost r1 = *rt;
        let value = rt.create_signal(initial);
        let ghost r2 = *rt;
        rt.derive_first(&f, value);
        let ghost r3 = *rt;
        let e = rt.install_derived(f, value, None);
        proof {
            Runtime::lemma_keeps_disposed_idle_trans(r2, r3, *rt);
        }
        proof {
            EffectId::lemma_spec_from_index(e, old(rt).effect_count());
            old(rt).store().lemma_values();
            r1.store().lemma_values();
            r2.store().lemma_values();
            rt.store().lemma_values();
            if f.writes().is_empty() && !f.reads().contains(value) && old(rt).store().pending().len() == 0 {
                if let Some(v0) = f.result(old(rt).store().values()) {
                    if let Some(v1) = f.result(old(rt).store().values().push(v0)) {
                        assert(value.id() == old(rt).store().len());
                        assert(r2.store().values() == old(rt).store().values().push(v0));
                        assert(r3.store().values() == r2.store().values().update(value.id() as int, v1));
                        assert(rt.store() == r3.store());
                        assert(rt.store().values() =~= old(rt).store().values().push(v1));
                    }
                }
            }
        }
        Computed { value }
    }

    /// Create a computed value whose effect belongs to `scope_id`; disposing
    /// the scope stops the recomputation. `None` when the scope is unknown or
    /// already disposed (the computation has then run once, untracked).
    pub fn new_in_scope<V>(rt: &mut Runtime<V>, scope_id: ScopeId, f: Box<dyn Computation<V>>) -> (r:
        Option<Computed>)
        requires
            old(rt).wf(),
        ensures
            final(rt).wf(),
            old(rt).keeps_disposed_idle(*final(rt)),
            r.is_none() <==> !old(rt).scope_alive(scope_id),
            r.is_none() ==> final(rt).effect_count() == old(rt).effect_count(),
            r.is_some() ==> final(rt).effect_count() == old(rt).effect_count() + 1 && final(rt).effect_alive(EffectId::spec_from_index(old(rt).effect_count())) && final(rt).effect_target(EffectId::spec_from_index(old(rt).effect_count())) == Some(
                r.unwrap().holder(),
            ) && final(rt).effect_scope(EffectId::spec_from_index(old(rt).effect_count()))
                == Some(scope_id),
            r.is_some() ==> r.unwrap().holder().id() >= old(rt).store().len() && final(rt).store().holds(r.unwrap().holder()),
            r is Some && f.writes().is_empty() && !f.reads().contains(r.unwrap().holder())
                && old(rt).store().pending().len() == 0
                ==> (f.result(old(rt).store().values()) matches Some(v0) ==> (f.result(
                old(rt).store().values().push(v0),
            ) matches Some(v1) ==> r.unwrap().holder().id() == old(rt).store().len() && final(rt).store().value(
                r.unwrap().holder(),
            ) == v1 && final(rt).store().values() == old(rt).store().values().push(v1))),
    {
        let initial = rt.evaluate_untracked(&f);
        let value = rt.create_signal(initial);
        if !rt.is_scope_alive(scope_id) {
            return None;
        }
        let ghost r2 = *rt;
        rt.derive_first(&f, value);
        let ghost r3 = *rt;
        let e = rt.install_derived(f, value, Some(scope_id));
        proof {
            Runtime::lemma_keeps_disposed_idle_trans(r2, r3, *rt);
            old(rt).store().lemma_values();
            r2.store().lemma_values();
            rt.store().lemma_values();
            if f.writes().is_empty() && !f.reads().contains(value) && old(rt).store().pending().len() == 0 {
                if let Some(v0) = f.result(old(rt).store().values()) {
                    if let Some(v1) = f.result(old(rt).store().values().push(v0)) {
                        assert(value.id() == old(rt).store().len());
                        assert(r2.store().values() == old(rt).store().values().push(v0));
                        assert(r3.store().values() == r2.store().values().update(value.id() as int, v1));
                        assert(rt.store() == r3.store());
                        assert(rt.store().values() =~= old(rt).store().values().push(v1));
                    }
                }
            }
        }
        proof {
            EffectId::lemma_spec_from_index(e, old(rt).effect_count());
        }
        Some(Computed { value })
    }

    /// The signal holding the current value.
    pub fn signal(&self) -> (s: Signal)
        ensures
            s == self.holder(),
    {
        self.value
    }

    /// The current value; the running effect, if any, subscribes to it (once).
    pub fn get<V: Clone>(&self, rt: &mut Runtime<V>) -> (r: V)
        requires
            old(rt).wf(),
            old(rt).store().holds(self.holder()),
        ensures
            final(rt).wf(),
            old(rt).keeps_disposed_idle(*final(rt)),
            cloned(old(rt).store().value(self.holder()), r),
            final(rt).same_bookkeeping(*old(rt)),
            final(rt).store().len() == old(rt).store().len(),
            forall|t: Signal|
                old(rt).store().holds(t) ==> final(rt).store().value(t) == old(rt).store().value(t),
            final(rt).store().subscribers(self.holder()) == crate::signal::track(
                old(rt).store().subscribers(self.holder()),
                old(rt).store().running(),
            ),
            final(rt).store().subscribers(self.holder()).no_duplicates(),
            forall|t: Signal|
                old(rt).store().holds(t) && t != self.holder() ==> final(rt).store().subscribers(t) == old(rt).store().subscribers(t),
            final(rt).store().running() == old(rt).store().running(),
            final(rt).store().pending() == old(rt).store().pending(),
    {
        rt.get(self.value)
    }

    /// The current value, read from inside an effect or computation:
    /// the running effect subscribes to this computed value.
    pub fn track<V: Clone>(&self, cx: &mut SignalStore<V>) -> (r: V)
        requires
            old(cx).holds(self.holder()),
        ensures
            cloned(old(cx).value(self.holder()), r),
            final(cx).subscribers(self.holder()) == crate::signal::track(
                old(cx).subscribers(self.holder()),
                old(cx).running(),
            ),
            final(cx).subscribers(self.holder()).no_duplicates(),
    {
        cx.get(self.value)
    }
}

/// Convenience constructor for computed values.
pub fn computed<V>(rt: &mut Runtime<V>, f: Box<dyn Computation<V>>) -> (c: Computed)
    requires
        old(rt).wf(),
    ensures
        final(rt).wf(),
        old(rt).keeps_disposed_idle(*final(rt)),
        final(rt).effect_count() == old(rt).effect_count() + 1,
        final(rt).effect_target(EffectId::spec_from_index(old(rt).effect_count())) == Some(
            c.holder(),
        ),
        final(rt).store().holds(c.holder()),
        f.writes().is_empty() && !f.reads().contains(c.holder()) && old(rt).store().pending().len() == 0
            ==> (f.result(old(rt).store().values()) matches Some(v0) ==> (f.result(
            old(rt).store().values().push(v0),
        ) matches Some(v1) ==> final(rt).store().value(c.holder()) == v1)),
{
    let initial = rt.evaluate_untracked(&f);
    let ghost r1 = *rt;
    let value = rt.create_signal(initial);
    let ghost r2 = *rt;
    rt.derive_first(&f, value);
    let ghost r3 = *rt;
    let e = rt.install_derived(f, value, None);
    proof {
        Runtime::lemma_keeps_disposed_idle_trans(r2, r3, *rt);
    }
    proof {
        EffectId::lemma_spec_from_index(e, old(rt).effect_count());
        old(rt).store().lemma_values();
        r1.store().lemma_values();
        r2.store().lemma_values();
        rt.store().lemma_values();
        if f.writes().is_empty() && !f.reads().contains(value) && old(rt).store().pending().len() == 0 {
            if let Some(v0) = f.result(old(rt).store().values()) {
                if let Some(v1) = f.result(old(rt).store().values().push(v0)) {
                    assert(value.id() == old(rt).store().len());
                    assert(r2.store().values() == old(rt).store().values().push(v0));
                    assert(r3.store().values() == r2.store().values().update(value.id() as int, v1));
                    assert(rt.store() == r3.store());
                    assert(rt.store().values() =~= old(rt).store().values().push(v1));
                }
            }
        }
    }
    Computed { value }
}

/// Create a computed value disposed together with a reactive scope.
pub fn computed_in_scope<V>(rt: &mut Runtime<V>, scope_id: ScopeId, f: Box<dyn Computation<V>>) -> (r:
    Option<Computed>)
    requires
        old(rt).wf(),
    ensures
        final(rt).wf(),
        old(rt).keeps_disposed_idle(*final(rt)),
        r.is_none() <==> !old(rt).scope_alive(scope_id),
        r.is_none() ==> final(rt).effect_count() == old(rt).effect_count(),
        r.is_some() ==> final(rt).effect_count() == old(rt).effect_count() + 1 && final(rt).effect_alive(EffectId::spec_from_index(old(rt).effect_count())) && final(rt).effect_target(EffectId::spec_from_index(old(rt).effect_count())) == Some(
            r.unwrap().holder(),
        ) && final(rt).effect_scope(EffectId::spec_from_index(old(rt).effect_count()))
            == Some(scope_id),
        r.is_some() ==> final(rt).store().holds(r.unwrap().holder()),
        r is Some && f.writes().is_empty() && !f.reads().contains(r.unwrap().holder())
            && old(rt).store().pending().len() == 0
            ==> (f.result(old(rt).store().values()) matches Some(v0) ==> (f.result(
            old(rt).store().values().push(v0),
        ) matches Some(v1) ==> final(rt).store().value(r.unwrap().holder()) == v1)),
{
    let initial = rt.evaluate_untracked(&f);
    let value = rt.create_signal(initial);
    if !rt.is_scope_alive(scope_id) {
        return None;
    }
    let ghost r2 = *rt;
    rt.derive_first(&f, value);
    let ghost r3 = *rt;
    let e = rt.install_derived(f, value, Some(scope_id));
    proof {
        Runtime::lemma_keeps_disposed_idle_trans(r2, r3, *rt);
        old(rt).store().lemma_values();
        r2.store().lemma_values();
        rt.store().lemma_values();
        if f.writes().is_empty() && !f.reads().contains(value) && old(rt).store().pending().len() == 0 {
            if let Some(v0) = f.result(old(rt).store().values()) {
                if let Some(v1) = f.result(old(rt).store().values().push(v0)) {
                    assert(value.id() == old(rt).store().len());
                    assert(r2.store().values() == old(rt).store().values().push(v0));
                    assert(r3.store().values() == r2.store().values().update(value.id() as int, v1));
                    assert(rt.store() == r3.store());
                    assert(rt.store().values() =~= old(rt).store().values().push(v1));
                }
            }
        }
    }
    proof {
        EffectId::lemma_spec_from_index(e, old(rt).effect_count());
    }
    Some(Computed { value })
}

} // verus!
