//! Reactive runtime: effects, scheduling, batching and scopes.
//!
//! The runtime owns a [`SignalStore`] and the bodies of all effects. An
//! effect runs once when it is created, with its reads tracked; afterwards
//! it re-runs whenever a signal it read is written. Writes queue the
//! subscribers of the written signal, and the runtime runs the queue in
//! order until it is empty. Effects created in a scope stop for good when
//! that scope, or a scope it lies within, is disposed.
use vstd::prelude::*;
use crate::signal::{enqueue_all, extends, filter_kept, kept, lemma_enqueue_all, lemma_filter_kept, track, EffectId, Signal, SignalCore, SignalStore};

verus! {

/// Upper bound on the effect runs of one flush of the queue (effects that
/// keep re-triggering each other would otherwise never stop).
pub const MAX_EFFECT_RUNS: u64 = 0xffff_ffff_ffff_ffffu64;

/// An effect body: code that reads and writes signals through the store.
/// Reads made while it runs subscribe the effect to the signals read.
/// A body reaches the store through its public operations, which only ever
/// append to the queue of pending effects: what was queued stays queued.
/// A body names the signals it may write; every other signal keeps its value.
pub trait Reaction<V> {
    /// The signals the body may write; unless a body says otherwise, any.
    open spec fn writes(&self) -> Set<Signal> {
        Set::full()
    }

    /// The signals the body reads on every run, so that the running effect
    /// subscribes to them; unless a body says otherwise, none.
    open spec fn always_reads(&self) -> Set<Signal> {
        Set::empty()
    }

    /// The signal values the body leaves, from the values it starts with,
    /// where the body states them; `None` (the default) states nothing.
    open spec fn outcome(&self, values: Seq<V>) -> Option<Seq<V>> {
        None
    }

    /// Run the effect. Reading subscribes only the running effect, so each
    /// subscriber list is kept or has the running effect tracked on it; a
    /// body that names no writes writes nothing.
    fn run(&self, cx: &mut SignalStore<V>)
        ensures
            extends(old(cx).pending(), final(cx).pending()),
            final(cx).len() >= old(cx).len(),
            forall|t: Signal|
                old(cx).holds(t) && !self.writes().contains(t) ==> #[trigger] final(cx).value(t) == old(cx).value(t),
            self.writes().is_empty() ==> final(cx).values() == old(cx).values() && final(cx).pending()
                == old(cx).pending(),
            forall|t: Signal|
                old(cx).holds(t) ==> #[trigger] final(cx).subscribers(t) == old(cx).subscribers(t)
                    || final(cx).subscribers(t) == track(old(cx).subscribers(t), old(cx).running()),
            forall|t: Signal|
                old(cx).holds(t) && self.always_reads().contains(t) ==> #[trigger] final(cx).subscribers(t)
                    == track(old(cx).subscribers(t), old(cx).running()),
            self.outcome(old(cx).values()) matches Some(vs) ==> final(cx).values() == vs,
            forall|t: Signal, x: EffectId|
                old(cx).holds(t) && final(cx).value(t) != old(cx).value(t) && #[trigger] old(cx).subscribers(t).contains(x)
                    ==> final(cx).pending().contains(x),
    ;
}

/// The body of a computed value: produces the value from signals it reads.
/// Like an effect body, it only ever appends to the queue.
/// It names the signals it may write (a computation that only reads names
/// none); every other signal keeps its value.
pub trait Computation<V> {
    /// The signals the computation may write; unless it says otherwise, any.
    open spec fn writes(&self) -> Set<Signal> {
        Set::full()
    }

    /// The signals whose subscriber lists the computation may change by
    /// reading them; unless it says otherwise, any.
    open spec fn reads(&self) -> Set<Signal> {
        Set::full()
    }

    /// The value computed from the signal values `values`, where the
    /// computation states it; `None` (the default) states nothing.
    open spec fn result(&self, values: Seq<V>) -> Option<V> {
        None
    }

    /// Compute the value. A computation that names no writes leaves the
    /// values and the queue as they were.
    fn compute(&self, cx: &mut SignalStore<V>) -> (value: V)
        ensures
            extends(old(cx).pending(), final(cx).pending()),
            final(cx).len() >= old(cx).len(),
            forall|t: Signal|
                old(cx).holds(t) && !self.writes().contains(t) ==> #[trigger] final(cx).value(t) == old(cx).value(t),
            self.writes().is_empty() ==> final(cx).values() == old(cx).values() && final(cx).pending()
                == old(cx).pending(),
            forall|t: Signal|
                old(cx).holds(t) && !self.reads().contains(t) ==> #[trigger] final(cx).subscribers(t)
                    == old(cx).subscribers(t),
            forall|t: Signal|
                old(cx).holds(t) ==> #[trigger] final(cx).subscribers(t) == old(cx).subscribers(t)
                    || final(cx).subscribers(t) == track(old(cx).subscribers(t), old(cx).running()),
            self.result(old(cx).values()) matches Some(v) ==> value == v,
    ;
}

#[verifier::reject_recursive_types(V)]
enum Body<V> {
    Effect(Box<dyn Reaction<V>>),
    Derived(Box<dyn Computation<V>>, Signal),
}

/// Identifies a scope of a reactive runtime.
#[derive(Clone, Copy, PartialEq, Eq, Debug, Structural)]
pub struct ScopeId {
    index: usize,
}

impl ScopeId {
    /// The scope's position in its runtime.
    pub closed spec fn id(self) -> nat {
        self.index as nat
    }

    /// The scope's position in its runtime.
    pub fn value(&self) -> (v: usize)
        ensures
            v == self.id(),
    {
        self.index
    }

    /// The scope at position `index` (as received from a window event).
    pub fn from_index(index: usize) -> (s: ScopeId)
        ensures
            s.id() == index,
    {
        ScopeId { index }
    }
}

/// Signals, effects and scopes of one reactive application.
#[verifier::reject_recursive_types(V)]
pub struct Runtime<V> {
    store: SignalStore<V>,
    bodies: Vec<Body<V>>,
    effect_alive: Vec<bool>,
    effect_scope: Vec<Option<ScopeId>>,
    effect_target: Vec<Option<Signal>>,
    scope_parent: Vec<Option<ScopeId>>,
    scope_alive: Vec<bool>,
    runs: Ghost<Seq<nat>>,
    dequeued: Ghost<nat>,
}

impl<V> Runtime<V> {
    /// The runtime's bookkeeping is consistent.
    pub closed spec fn wf(self) -> bool {
        &&& self.bodies@.len() == self.effect_alive@.len()
        &&& self.bodies@.len() == self.effect_scope@.len()
        &&& self.bodies@.len() == self.effect_target@.len()
        &&& self.scope_parent@.len() == self.scope_alive@.len()
        &&& self.runs@.len() == self.bodies@.len()
        &&& forall|e: int|
            0 <= e < self.effect_scope@.len() && (#[trigger] self.effect_scope@[e]).is_some()
                ==> self.effect_scope@[e].unwrap().id() < self.scope_parent@.len()
        &&& forall|i: int|
            0 <= i < self.scope_parent@.len() && (#[trigger] self.scope_parent@[i]).is_some()
                ==> self.scope_parent@[i].unwrap().id() < i
    }

    /// The signals and their bookkeeping.
    pub closed spec fn store(self) -> SignalStore<V> {
        self.store
    }

    /// Every live effect among `queued` has run more often in `later` than in
    /// `self`.
    pub open spec fn ran_all(self, later: Runtime<V>, queued: Seq<EffectId>) -> bool {
        forall|e: EffectId| #[trigger] queued.contains(e) && self.effect_alive(e) ==> later.run_count(e) > self.run_count(e)
    }

    /// The signals effect number `i` may write: those its body names, and
    /// for a computed value the signal holding it.
    closed spec fn writes_of(self, i: int) -> Set<Signal> {
        match self.bodies@[i] {
            Body::Effect(b) => b.writes(),
            Body::Derived(b, t) => b.writes().insert(t),
        }
    }

    /// The signals effect `e` may write when it runs.
    pub closed spec fn effect_writes(self, e: EffectId) -> Set<Signal> {
        self.writes_of(e.id() as int)
    }

    /// Some live effect may write `t` when it runs.
    pub open spec fn live_writer(self, t: Signal) -> bool {
        exists|e: EffectId|
            e.id() < self.effect_count() && self.effect_alive(e) && #[trigger] self.effect_writes(e).contains(t)
    }

    /// No effect of `self` has run fewer times in `later`.
    pub open spec fn runs_grow(self, later: Runtime<V>) -> bool {
        forall|e: EffectId| e.id() < self.effect_count() ==> #[trigger] later.run_count(e) >= self.run_count(e)
    }

    /// How many entries have been taken from the pending queue so far.
    pub closed spec fn dequeued(self) -> nat {
        self.dequeued@
    }

    /// How many times effect `e` has run.
    pub closed spec fn run_count(self, e: EffectId) -> nat {
        self.runs@[e.id() as int]
    }

    /// Every effect disposed in `self` is still disposed in `later` and has
    /// not run in between, and `later` keeps all the effects of `self`.
    pub open spec fn keeps_disposed_idle(self, later: Runtime<V>) -> bool {
        &&& later.effect_count() >= self.effect_count()
        &&& forall|e: EffectId|
            e.id() < self.effect_count() && !self.effect_alive(e) ==> !(#[trigger] later.effect_alive(e))
        &&& forall|e: EffectId|
            e.id() < self.effect_count() && !self.effect_alive(e) ==> #[trigger] later.run_count(e) == self.run_count(e)
    }

    /// Number of effects created so far.
    pub closed spec fn effect_count(self) -> nat {
        self.bodies@.len()
    }

    /// Whether `e` is an effect of this runtime that has not been disposed.
    pub closed spec fn effect_alive(self, e: EffectId) -> bool {
        e.id() < self.effect_alive@.len() && self.effect_alive@[e.id() as int]
    }

    /// The scope `e` was created in, if any.
    pub closed spec fn effect_scope(self, e: EffectId) -> Option<ScopeId> {
        self.effect_scope@[e.id() as int]
    }

    /// The signal a computed effect writes its result to, if any.
    pub closed spec fn effect_target(self, e: EffectId) -> Option<Signal> {
        self.effect_target@[e.id() as int]
    }

    /// Number of scopes created so far.
    pub closed spec fn scope_count(self) -> nat {
        self.scope_parent@.len()
    }

    /// Whether `s` is a scope of this runtime that has not been disposed.
    pub closed spec fn scope_alive(self, s: ScopeId) -> bool {
        s.id() < self.scope_alive@.len() && self.scope_alive@[s.id() as int]
    }

    /// The scope `s` was created in, if any.
    pub closed spec fn scope_parent(self, s: ScopeId) -> Option<ScopeId> {
        self.scope_parent@[s.id() as int]
    }

    /// Whether scope `s` is `ancestor` or lies (transitively) within it.
    pub closed spec fn within(self, s: ScopeId, ancestor: ScopeId) -> bool
        decreases s.id(),
    {
        &&& s.id() < self.scope_parent@.len()
        &&& (s == ancestor || match self.scope_parent@[s.id() as int] {
            Some(p) => p.id() < s.id() && self.within(p, ancestor),
            None => false,
        })
    }

    /// Whether disposing `target` disposes effect number `e`.
    pub closed spec fn doomed(self, e: int, target: ScopeId) -> bool {
        match self.effect_scope@[e] {
            Some(s) => self.within(s, target),
            None => false,
        }
    }

    /// For each effect, whether it survives the disposal of `target`.
    pub closed spec fn survivors(self, target: ScopeId) -> Seq<bool> {
        Seq::new(self.bodies@.len(), |e: int| !self.doomed(e, target))
    }

    /// The bookkeeping of effects and scopes agrees between two runtime states.
    pub open spec fn same_bookkeeping(self, other: Runtime<V>) -> bool {
        &&& self.effect_count() == other.effect_count()
        &&& self.scope_count() == other.scope_count()
        &&& forall|e: EffectId| #[trigger] self.effect_alive(e) == other.effect_alive(e)
        &&& forall|e: EffectId|
            e.id() < self.effect_count() ==> self.effect_scope(e) == other.effect_scope(e)
                && self.effect_target(e) == other.effect_target(e)
        &&& forall|s: ScopeId| #[trigger] self.scope_alive(s) == other.scope_alive(s)
        &&& forall|s: ScopeId|
            s.id() < self.scope_count() ==> self.scope_parent(s) == other.scope_parent(s)
    }

    /// Two runtime states differ at most in their stores.
    closed spec fn store_only_change(self, b: Runtime<V>) -> bool {
        &&& self.bodies@ == b.bodies@
        &&& self.effect_alive@ == b.effect_alive@
        &&& self.effect_scope@ == b.effect_scope@
        &&& self.effect_target@ == b.effect_target@
        &&& self.scope_parent@ == b.scope_parent@
        &&& self.scope_alive@ == b.scope_alive@
    }

    /// Runtimes that differ in their store alone agree on their bookkeeping.
    proof fn lemma_store_only_change(a: Runtime<V>, b: Runtime<V>)
        requires
            a.store_only_change(b),
        ensures
            a.same_bookkeeping(b),
    {
    }

    /// Keeping disposed effects idle composes over consecutive steps.
    pub proof fn lemma_keeps_disposed_idle_trans(a: Runtime<V>, b: Runtime<V>, c: Runtime<V>)
        requires
            a.keeps_disposed_idle(b),
            b.keeps_disposed_idle(c),
        ensures
            a.keeps_disposed_idle(c),
    {
        assert forall|e: EffectId| e.id() < a.effect_count() && !a.effect_alive(e) implies !(#[trigger] c.effect_alive(e)) by {
            assert(!b.effect_alive(e));
        }
        assert forall|e: EffectId| e.id() < a.effect_count() && !a.effect_alive(e) implies #[trigger] c.run_count(e) == a.run_count(e) by {
            assert(b.run_count(e) == a.run_count(e));
            assert(!b.effect_alive(e));
            assert(c.run_count(e) == b.run_count(e));
        }
    }

    /// Running effect `index` (alive) keeps disposed effects idle.
    proof fn lemma_run_keeps_disposed_idle(a: Runtime<V>, b: Runtime<V>, index: int)
        requires
            a.wf(),
            0 <= index < a.effect_count(),
            a.effect_alive@[index],
            b.store_only_change(a),
            b.runs@ == a.runs@.update(index, a.runs@[index] + 1),
        ensures
            a.keeps_disposed_idle(b),
    {
        assert forall|e: EffectId| e.id() < a.effect_count() && !a.effect_alive(e) implies #[trigger] b.run_count(e) == a.run_count(e) by {
            assert(e.id() != index);
        }
    }

    /// A runtime with no signals, effects or scopes.
    pub fn new() -> (rt: Self)
        ensures
            rt.wf(),
            rt.effect_count() == 0,
            rt.scope_count() == 0,
            rt.store().len() == 0,
            rt.store().running() == None::<EffectId>,
            rt.store().pending() == Seq::<EffectId>::empty(),
    {
        Runtime {
            store: SignalStore::new(),
            bodies: Vec::new(),
            effect_alive: Vec::new(),
            effect_scope: Vec::new(),
            effect_target: Vec::new(),
            scope_parent: Vec::new(),
            scope_alive: Vec::new(),
            runs: Ghost(Seq::empty()),
            dequeued: Ghost(0),
        }
    }

    /// The signals and their bookkeeping.
    pub fn signals(&self) -> (store: &SignalStore<V>)
        ensures
            *store == self.store(),
    {
        &self.store
    }

    /// Add a signal holding `value`.
    pub fn create_signal(&mut self, value: V) -> (s: Signal)
        requires
            old(self).wf(),
        ensures
            final(self).wf(),
            old(self).keeps_disposed_idle(*final(self)),
            final(self).same_bookkeeping(*old(self)),
            s.id() == old(self).store().len(),
            final(self).store().len() == old(self).store().len() + 1,
            final(self).store().value(s) == value,
            final(self).store().subscribers(s) == Seq::<EffectId>::empty(),
            forall|t: Signal|
                old(self).store().holds(t) ==> final(self).store().value(t) == old(self).store().value(t) && final(self).store().subscribers(t) == old(self).store().subscribers(t),
            final(self).store().running() == old(self).store().running(),
            final(self).store().pending() == old(self).store().pending(),
            final(self).store().values() == old(self).store().values().push(value),
    {
        self.store.create_signal(value)
    }

    /// Read `s`; at the top level nothing is running, so nothing subscribes.
    pub fn get(&mut self, s: Signal) -> (r: V) where V: Clone
        requires
            old(self).wf(),
            old(self).store().holds(s),
        ensures
            final(self).wf(),
            old(self).keeps_disposed_idle(*final(self)),
            final(self).same_bookkeeping(*old(self)),
            cloned(old(self).store().value(s), r),
            final(self).store().len() == old(self).store().len(),
            forall|t: Signal|
                old(self).store().holds(t) ==> final(self).store().value(t) == old(self).store().value(t),
            final(self).store().subscribers(s) == track(old(self).store().subscribers(s), old(self).store().running()),
            final(self).store().subscribers(s).no_duplicates(),
            forall|t: Signal|
                old(self).store().holds(t) && t != s ==> final(self).store().subscribers(t) == old(self).store().subscribers(t),
            final(self).store().running() == old(self).store().running(),
            final(self).store().pending() == old(self).store().pending(),
    {
        self.store.get(s)
    }

    fn run_effect(&mut self, index: usize)
        requires
            old(self).wf(),
            index < old(self).effect_count(),
            old(self).effect_alive@[index as int],
        ensures
            final(self).wf(),
            final(self).store_only_change(*old(self)),
            final(self).store().running() == old(self).store().running(),
            final(self).runs@ == old(self).runs@.update(index as int, old(self).runs@[index as int] + 1),
            final(self).dequeued() == old(self).dequeued(),
            extends(old(self).store().pending(), final(self).store().pending()),
            final(self).store().len() >= old(self).store().len(),
            forall|t: Signal|
                old(self).store().holds(t) && !old(self).writes_of(index as int).contains(t)
                    ==> #[trigger] final(self).store().value(t) == old(self).store().value(t),
            old(self).store().keeps_subscriptions(final(self).store()),
    {
        let previous = self.store.current_effect();
        self.store.set_running(Some(EffectId::from_index(index)));
        let ghost p0 = old(self).store().pending();
        let ghost st0 = self.store();
        proof {
            old(self).store().lemma_tracking_keeps_subscriptions(st0, None);
        }
        match &self.bodies[index] {
            Body::Effect(body) => {
                body.run(&mut self.store);
                proof {
                    st0.lemma_tracking_keeps_subscriptions(self.store(), st0.running());
                    old(self).store().lemma_keeps_subscriptions_trans(st0, self.store());
                }
                let ghost st1 = self.store();
                self.store.set_running(previous);
                proof {
                    st1.lemma_tracking_keeps_subscriptions(self.store(), None);
                    old(self).store().lemma_keeps_subscriptions_trans(st1, self.store());
                }
            },
            Body::Derived(body, target) => {
                let value = body.compute(&mut self.store);
                proof {
                    st0.lemma_tracking_keeps_subscriptions(self.store(), st0.running());
                    old(self).store().lemma_keeps_subscriptions_trans(st0, self.store());
                }
                let ghost st1 = self.store();
                self.store.set_running(previous);
                proof {
                    st1.lemma_tracking_keeps_subscriptions(self.store(), None);
                    old(self).store().lemma_keeps_subscriptions_trans(st1, self.store());
                }
                let t = *target;
                if t.value_index() < self.store.signal_count() {
                    let ghost before = self.store();
                    self.store.set(t, value);
                    proof {
                        before.lemma_tracking_keeps_subscriptions(self.store(), None);
                        old(self).store().lemma_keeps_subscriptions_trans(before, self.store());
                        lemma_enqueue_all(before.pending(), before.subscribers(t));
                        assert forall|i: int| 0 <= i < p0.len() implies #[trigger] self.store().pending()[i] == p0[i] by {
                            assert(before.pending()[i] == p0[i]);
                        }
                    }
                }
            },
        }
        self.runs = Ghost(self.runs@.update(index as int, self.runs@[index as int] + 1));
    }

    /// Run queued effects, first queued first, skipping disposed ones, until
    /// the queue is empty (or `MAX_EFFECT_RUNS` effects have run). Returns
    /// the number of effects taken from the queue.
    fn flush(&mut self) -> (taken: u64)
        requires
            old(self).wf(),
        ensures
            final(self).wf(),
            final(self).same_bookkeeping(*old(self)),
            final(self).store().running() == old(self).store().running(),
            final(self).store().pending().len() == 0 || taken == MAX_EFFECT_RUNS,
            old(self).store().pending().len() == 0 ==> taken == 0 && final(self).store() == old(self).store(),
            old(self).keeps_disposed_idle(*final(self)),
            final(self).dequeued() == old(self).dequeued() + taken,
            taken <= MAX_EFFECT_RUNS,
            old(self).runs_grow(*final(self)),
            final(self).store().pending().len() == 0 ==> old(self).ran_all(*final(self), old(self).store().pending()),
            final(self).store().len() >= old(self).store().len(),
            forall|t: Signal|
                old(self).store().holds(t) && !old(self).live_writer(t) ==> #[trigger] final(self).store().value(t)
                    == old(self).store().value(t),
            old(self).store().keeps_subscriptions(final(self).store()),
            old(self).store().pending().len() == 0 ==> forall|e: EffectId| #[trigger] final(self).run_count(e) == old(self).run_count(e),
    {
        let mut taken: u64 = 0;
        let mut done = false;
        let ghost p0 = old(self).store().pending();
        let ghost mut k: int = 0;
        while !done && taken < MAX_EFFECT_RUNS
            invariant
                self.wf(),
                self.store_only_change(*old(self)),
                self.store().running() == old(self).store().running(),
                done ==> self.store().pending().len() == 0,
                self.dequeued() == old(self).dequeued() + taken,
                old(self).store().pending().len() == 0 ==> taken == 0 && self.store() == old(self).store(),
                forall|j: int| 0 <= j < self.runs@.len() && !self.effect_alive@[j] ==> #[trigger] self.runs@[j] == old(self).runs@[j],
                p0 == old(self).store().pending(),
                0 <= k <= p0.len(),
                k < p0.len() ==> p0.len() - k <= self.store().pending().len(),
                forall|i: int| 0 <= i < p0.len() - k ==> #[trigger] self.store().pending()[i] == p0[k + i],
                forall|j: int|
                    0 <= j < k && old(self).effect_alive(p0[j]) ==> self.runs@[p0[j].id() as int] > old(self).runs@[p0[j].id() as int],
                forall|i: int| 0 <= i < self.runs@.len() ==> #[trigger] self.runs@[i] >= old(self).runs@[i],
                self.store().len() >= old(self).store().len(),
                forall|t: Signal|
                    old(self).store().holds(t) && !old(self).live_writer(t) ==> #[trigger] self.store().value(t)
                        == old(self).store().value(t),
                old(self).store().keeps_subscriptions(self.store()),
                old(self).store().pending().len() == 0 ==> self.runs@ == old(self).runs@,
            decreases (MAX_EFFECT_RUNS - taken) * 2 + (if done { 0int } else { 1int }),
        {
            let ghost before_pop = self.store();
            let popped = self.store.pop_pending();
            proof {
                before_pop.lemma_tracking_keeps_subscriptions(self.store(), None);
                old(self).store().lemma_keeps_subscriptions_trans(before_pop, self.store());
            }
            match popped {
                None => {
                    done = true;
                },
                Some(e) => {
                    let ghost mid = self.store().pending();
                    let i = e.value();
                    if i < self.effect_alive.len() && self.effect_alive[i] {
                        let ghost before = *self;
                        self.run_effect(i);
                        proof {
                            old(self).store().lemma_keeps_subscriptions_trans(before.store(), self.store());
                            assert(old(self).effect_alive(e));
                            assert forall|t: Signal|
                                old(self).store().holds(t) && !old(self).live_writer(t) implies #[trigger] self.store().value(t)
                                    == old(self).store().value(t) by {
                                assert(!old(self).effect_writes(e).contains(t));
                                assert(before.writes_of(i as int) == old(self).writes_of(i as int));
                            }
                        }
                    }
                    proof {
                        assert forall|q: int| 0 <= q < p0.len() - (k + 1) implies #[trigger] self.store().pending()[q] == p0[k + 1 + q] by {
                            assert(mid[q] == p0[k + 1 + q]);
                        }
                        if k < p0.len() {
                            k = k + 1;
                        }
                    }
                    taken = taken + 1;
                    self.dequeued = Ghost(self.dequeued@ + 1);
                },
            }
        }
        proof {
            Runtime::lemma_store_only_change(*self, *old(self));
            if self.store().pending().len() == 0 {
                assert(k == p0.len());
                assert forall|e: EffectId| #[trigger] p0.contains(e) && old(self).effect_alive(e) implies self.run_count(e) > old(self).run_count(e) by {
                    let j = choose|j: int| 0 <= j < p0.len() && p0[j] == e;
                }
            }
        }
        taken
    }

    /// Write `value` to `s`, then run the effects this schedules (see `flush`).
    pub fn set(&mut self, s: Signal, value: V)
        requires
            old(self).wf(),
            old(self).store().holds(s),
        ensures
            final(self).wf(),
            old(self).keeps_disposed_idle(*final(self)),
            final(self).same_bookkeeping(*old(self)),
            final(self).store().running() == old(self).store().running(),
            old(self).store().pending().len() == 0 && old(self).store().subscribers(s).len() == 0
                ==> final(self).store().value(s) == value && final(self).store().pending().len()
                == 0 && final(self).store().len() == old(self).store().len() && (forall|
                t: Signal,
            |
                old(self).store().holds(t) && t != s ==> final(self).store().value(t) == old(self).store().value(t)),
            final(self).store().len() >= old(self).store().len(),
            !old(self).live_writer(s) ==> final(self).store().value(s) == value,
            forall|t: Signal|
                old(self).store().holds(t) && t != s && !old(self).live_writer(t) ==> #[trigger] final(self).store().value(t)
                    == old(self).store().value(t),
            old(self).runs_grow(*final(self)),
            final(self).store().pending().len() == 0 ==> old(self).ran_all(*final(self), old(self).store().subscribers(s))
                && old(self).ran_all(*final(self), old(self).store().pending()),
    {
        self.store.set(s, value);
        proof {
            if old(self).store().pending().len() == 0 && old(self).store().subscribers(s).len()
                == 0 {
                assert(self.store().pending() == Seq::<EffectId>::empty());
            }
        }
        let ghost mid = *self;
        self.flush();
        proof {
            lemma_enqueue_all(old(self).store().pending(), old(self).store().subscribers(s));
            assert(mid.effect_alive@ == old(self).effect_alive@ && mid.runs@ == old(self).runs@);
            assert(mid.bodies@ == old(self).bodies@);
            assert forall|t: Signal| mid.live_writer(t) == old(self).live_writer(t) by {
                if mid.live_writer(t) {
                    let e = choose|e: EffectId|
                        e.id() < mid.effect_count() && mid.effect_alive(e) && #[trigger] mid.effect_writes(e).contains(t);
                    assert(old(self).effect_writes(e).contains(t));
                }
                if old(self).live_writer(t) {
                    let e = choose|e: EffectId|
                        e.id() < old(self).effect_count() && old(self).effect_alive(e) && #[trigger] old(self).effect_writes(e).contains(t);
                    assert(mid.effect_writes(e).contains(t));
                }
            }
            if self.store().pending().len() == 0 {
                assert forall|e: EffectId|
                    #[trigger] old(self).store().subscribers(s).contains(e) && old(self).effect_alive(e)
                        implies self.run_count(e) > old(self).run_count(e) by {
                    assert(enqueue_all(old(self).store().pending(), old(self).store().subscribers(s)).contains(e));
                    assert(mid.store().pending().contains(e) && mid.effect_alive(e));
                }
                assert forall|e: EffectId|
                    #[trigger] old(self).store().pending().contains(e) && old(self).effect_alive(e)
                        implies self.run_count(e) > old(self).run_count(e) by {
                    assert(enqueue_all(old(self).store().pending(), old(self).store().subscribers(s)).contains(e));
                    assert(mid.store().pending().contains(e) && mid.effect_alive(e));
                }
            }
        }
    }

    /// Replace the value of `s` by `f` of it, then run the effects this schedules.
    pub fn update<F: FnOnce(V) -> V>(&mut self, s: Signal, f: F) where V: Clone
        requires
            old(self).wf(),
            old(self).store().holds(s),
            forall|v: V| call_requires(f, (v,)),
        ensures
            final(self).wf(),
            old(self).keeps_disposed_idle(*final(self)),
            final(self).same_bookkeeping(*old(self)),
            final(self).store().running() == old(self).store().running(),
            old(self).store().pending().len() == 0 && old(self).store().subscribers(s).len() == 0
                ==> exists|c: V|
                cloned(old(self).store().value(s), c) && call_ensures(
                    f,
                    (c,),
                    final(self).store().value(s),
                ),
            final(self).store().len() >= old(self).store().len(),
            !old(self).live_writer(s) ==> exists|c: V|
                cloned(old(self).store().value(s), c) && call_ensures(f, (c,), final(self).store().value(s)),
            forall|t: Signal|
                old(self).store().holds(t) && t != s && !old(self).live_writer(t) ==> #[trigger] final(self).store().value(t)
                    == old(self).store().value(t),
            old(self).runs_grow(*final(self)),
            final(self).store().pending().len() == 0 ==> old(self).ran_all(*final(self), old(self).store().subscribers(s))
                && old(self).ran_all(*final(self), old(self).store().pending()),
    {
        self.store.update(s, f);
        proof {
            if old(self).store().pending().len() == 0 && old(self).store().subscribers(s).len()
                == 0 {
                assert(self.store().pending() == Seq::<EffectId>::empty());
            }
        }
        let ghost mid = *self;
        self.flush();
        proof {
            lemma_enqueue_all(old(self).store().pending(), old(self).store().subscribers(s));
            assert(mid.effect_alive@ == old(self).effect_alive@ && mid.runs@ == old(self).runs@);
            assert(mid.bodies@ == old(self).bodies@);
            assert forall|t: Signal| mid.live_writer(t) == old(self).live_writer(t) by {
                if mid.live_writer(t) {
                    let e = choose|e: EffectId|
                        e.id() < mid.effect_count() && mid.effect_alive(e) && #[trigger] mid.effect_writes(e).contains(t);
                    assert(old(self).effect_writes(e).contains(t));
                }
                if old(self).live_writer(t) {
                    let e = choose|e: EffectId|
                        e.id() < old(self).effect_count() && old(self).effect_alive(e) && #[trigger] old(self).effect_writes(e).contains(t);
                    assert(mid.effect_writes(e).contains(t));
                }
            }
            if self.store().pending().len() == 0 {
                assert forall|e: EffectId|
                    #[trigger] old(self).store().subscribers(s).contains(e) && old(self).effect_alive(e)
                        implies self.run_count(e) > old(self).run_count(e) by {
                    assert(enqueue_all(old(self).store().pending(), old(self).store().subscribers(s)).contains(e));
                    assert(mid.store().pending().contains(e) && mid.effect_alive(e));
                }
                assert forall|e: EffectId|
                    #[trigger] old(self).store().pending().contains(e) && old(self).effect_alive(e)
                        implies self.run_count(e) > old(self).run_count(e) by {
                    assert(enqueue_all(old(self).store().pending(), old(self).store().subscribers(s)).contains(e));
                    assert(mid.store().pending().contains(e) && mid.effect_alive(e));
                }
            }
        }
    }

    /// Run `body` with no effect tracking, then run the effects its writes
    /// scheduled, each at most once per pending entry: afterwards the queue
    /// is empty, unless the flush took its whole budget of entries.
    pub fn batch<R: Reaction<V>>(&mut self, body: &R)
        requires
            old(self).wf(),
        ensures
            final(self).wf(),
            old(self).keeps_disposed_idle(*final(self)),
            final(self).same_bookkeeping(*old(self)),
            final(self).store().running() == old(self).store().running(),
            old(self).dequeued() <= final(self).dequeued() <= old(self).dequeued() + MAX_EFFECT_RUNS,
            final(self).store().pending().len() == 0 || final(self).dequeued() == old(self).dequeued()
                + MAX_EFFECT_RUNS,
            old(self).runs_grow(*final(self)),
            final(self).store().pending().len() == 0 ==> old(self).ran_all(*final(self), old(self).store().pending()),
            final(self).store().len() >= old(self).store().len(),
            body.outcome(old(self).store().values()) matches Some(vs) ==> forall|t: Signal|
                old(self).store().holds(t) && !old(self).live_writer(t) ==> #[trigger] final(self).store().value(t)
                    == vs[t.id() as int],
            final(self).store().pending().len() == 0 ==> forall|t: Signal, x: EffectId|
                old(self).store().holds(t) && !old(self).live_writer(t) && final(self).store().value(t) != old(self).store().value(t)
                    && #[trigger] old(self).store().subscribers(t).contains(x) && old(self).effect_alive(x)
                    ==> final(self).run_count(x) > old(self).run_count(x),
    {
        let previous = self.store.current_effect();
        self.store.set_running(None);
        let ghost st0 = self.store();
        body.run(&mut self.store);
        let ghost st1 = self.store();
        self.store.set_running(previous);
        let ghost mid = *self;
        self.flush();
        proof {
            assert(mid.effect_alive@ == old(self).effect_alive@ && mid.runs@ == old(self).runs@);
            assert(mid.bodies@ == old(self).bodies@);
            assert forall|t: Signal| mid.live_writer(t) == old(self).live_writer(t) by {
                if mid.live_writer(t) {
                    let e = choose|e: EffectId|
                        e.id() < mid.effect_count() && mid.effect_alive(e) && #[trigger] mid.effect_writes(e).contains(t);
                    assert(old(self).effect_writes(e).contains(t));
                }
                if old(self).live_writer(t) {
                    let e = choose|e: EffectId|
                        e.id() < old(self).effect_count() && old(self).effect_alive(e) && #[trigger] old(self).effect_writes(e).contains(t);
                    assert(mid.effect_writes(e).contains(t));
                }
            }
            st1.lemma_values();
            old(self).store().lemma_values();
            if let Some(vs) = body.outcome(old(self).store().values()) {
                assert(st0.values() == old(self).store().values());
                assert forall|t: Signal|
                    old(self).store().holds(t) && !old(self).live_writer(t) implies #[trigger] self.store().value(t)
                        == vs[t.id() as int] by {
                    assert(mid.store().value(t) == st1.value(t));
                }
            }
            if self.store().pending().len() == 0 {
                assert forall|t: Signal, x: EffectId|
                    old(self).store().holds(t) && !old(self).live_writer(t) && self.store().value(t) != old(self).store().value(t)
                        && #[trigger] old(self).store().subscribers(t).contains(x) && old(self).effect_alive(x)
                        implies self.run_count(x) > old(self).run_count(x) by {
                    assert(st0.subscribers(t) == old(self).store().subscribers(t));
                    assert(mid.store().value(t) == self.store().value(t));
                    assert(st1.pending().contains(x));
                    assert(mid.store().pending().contains(x) && mid.effect_alive(x));
                }
            }
            if self.store().pending().len() == 0 {
                assert forall|e: EffectId|
                    #[trigger] old(self).store().pending().contains(e) && old(self).effect_alive(e)
                        implies self.run_count(e) > old(self).run_count(e) by {
                    let j = choose|j: int| 0 <= j < old(self).store().pending().len() && old(self).store().pending()[j] == e;
                    assert(mid.store().pending()[j] == e);
                    assert(mid.store().pending().contains(e) && mid.effect_alive(e));
                }
            }
        }
    }

    /// Evaluate a computation with no effect tracking.
    pub(crate) fn evaluate_untracked(&mut self, body: &Box<dyn Computation<V>>) -> (v: V)
        requires
            old(self).wf(),
        ensures
            final(self).store().len() >= old(self).store().len(),
            final(self).wf(),
            old(self).keeps_disposed_idle(*final(self)),
            final(self).same_bookkeeping(*old(self)),
            final(self).store().running() == old(self).store().running(),
            body.result(old(self).store().values()) matches Some(r) ==> v == r,
            body.writes().is_empty() ==> final(self).store().values() == old(self).store().values()
                && final(self).store().pending() == old(self).store().pending(),
    {
        let previous = self.store.current_effect();
        self.store.set_running(None);
        let v = body.compute(&mut self.store);
        self.store.set_running(previous);
        v
    }

    fn add_effect(&mut self, body: Body<V>, scope: Option<ScopeId>, target: Option<Signal>) -> (e:
        EffectId)
        requires
            old(self).wf(),
            scope.is_some() ==> scope.unwrap().id() < old(self).scope_count(),
        ensures
            final(self).wf(),
            old(self).keeps_disposed_idle(*final(self)),
            e.id() == old(self).effect_count(),
            final(self).effect_count() == old(self).effect_count() + 1,
            final(self).scope_count() == old(self).scope_count(),
            final(self).effect_alive(e),
            final(self).effect_scope(e) == scope,
            final(self).effect_target(e) == target,
            final(self).bodies@[e.id() as int] == body,
            final(self).runs@ == old(self).runs@.push(0),
            forall|x: EffectId|
                x.id() < old(self).effect_count() ==> final(self).effect_alive(x) == old(self).effect_alive(x) && final(self).effect_scope(x) == old(self).effect_scope(x)
                    && final(self).effect_target(x) == old(self).effect_target(x),
            forall|s: ScopeId|
                s.id() < old(self).scope_count() ==> final(self).scope_alive(s) == old(self).scope_alive(s) && final(self).scope_parent(s) == old(self).scope_parent(s),
            final(self).store() == old(self).store(),
    {
        let index = self.bodies.len();
        self.bodies.push(body);
        self.effect_alive.push(true);
        self.effect_scope.push(scope);
        self.effect_target.push(target);
        self.runs = Ghost(self.runs@.push(0));
        let e = EffectId::from_index(index);
        assert forall|x: EffectId| x.id() < old(self).effect_count() implies final(self).effect_scope(x) == old(self).effect_scope(x) by {
            assert(self.effect_scope@[x.id() as int] == old(self).effect_scope@[x.id() as int]);
        }
        e
    }

    /// The first run of the effect that will be created next: run `body`
    /// with that effect tracking its reads.
    fn first_run(&mut self, body: &Box<dyn Reaction<V>>)
        requires
            old(self).wf(),
        ensures
            final(self).wf(),
            final(self).store_only_change(*old(self)),
            final(self).runs@ == old(self).runs@,
            final(self).dequeued() == old(self).dequeued(),
            final(self).store().running() == old(self).store().running(),
            final(self).store().len() >= old(self).store().len(),
            old(self).store().keeps_subscriptions(final(self).store()),
            extends(old(self).store().pending(), final(self).store().pending()),
            forall|t: Signal|
                old(self).store().holds(t) && body.always_reads().contains(t)
                    ==> #[trigger] final(self).store().subscribers(t).contains(EffectId::spec_from_index(old(self).effect_count())),
            body.writes().is_empty() ==> final(self).store().pending() == old(self).store().pending(),
    {
        let index = self.bodies.len();
        let previous = self.store.current_effect();
        let id = EffectId::from_index(index);
        self.store.set_running(Some(id));
        let ghost st0 = self.store();
        proof {
            old(self).store().lemma_tracking_keeps_subscriptions(st0, None);
            EffectId::lemma_spec_from_index(id, old(self).effect_count());
        }
        body.run(&mut self.store);
        let ghost st1 = self.store();
        proof {
            st0.lemma_tracking_keeps_subscriptions(st1, st0.running());
            old(self).store().lemma_keeps_subscriptions_trans(st0, st1);
            assert forall|t: Signal|
                old(self).store().holds(t) && body.always_reads().contains(t)
                    implies #[trigger] st1.subscribers(t).contains(id) by {
                let subs = st0.subscribers(t);
                if !subs.contains(id) {
                    assert(subs.push(id)[subs.len() as int] == id);
                }
            }
        }
        self.store.set_running(previous);
        proof {
            st1.lemma_tracking_keeps_subscriptions(self.store(), None);
            old(self).store().lemma_keeps_subscriptions_trans(st1, self.store());
            assert forall|t: Signal|
                old(self).store().holds(t) && body.always_reads().contains(t)
                    implies #[trigger] self.store().subscribers(t).contains(EffectId::spec_from_index(old(self).effect_count())) by {
                assert(st1.subscribers(t).contains(id));
            }
        }
    }

    /// Create an effect: run it now (subscribing it to what it reads), then
    /// run whatever its writes scheduled.
    pub fn create_effect(&mut self, body: Box<dyn Reaction<V>>) -> (e: EffectId)
        requires
            old(self).wf(),
        ensures
            final(self).wf(),
            old(self).keeps_disposed_idle(*final(self)),
            e.id() == old(self).effect_count(),
            final(self).effect_count() == old(self).effect_count() + 1,
            final(self).effect_alive(e),
            final(self).effect_scope(e) == None::<ScopeId>,
            final(self).effect_target(e) == None::<Signal>,
            final(self).scope_count() == old(self).scope_count(),
            forall|x: EffectId|
                x.id() < old(self).effect_count() ==> final(self).effect_alive(x) == old(self).effect_alive(x),
            forall|s: ScopeId|
                s.id() < old(self).scope_count() ==> final(self).scope_alive(s) == old(self).scope_alive(s),
            final(self).store().running() == old(self).store().running(),
            final(self).run_count(e) >= 1,
            old(self).store().pending().len() == 0 && body.writes().is_empty() ==> final(self).run_count(e) == 1,
            forall|t: Signal|
                old(self).store().holds(t) && body.always_reads().contains(t)
                    ==> #[trigger] final(self).store().subscribers(t).contains(e),
    {
        self.first_run(&body);
        let ghost s0 = *self;
        let index = self.bodies.len();
        let e = self.add_effect(Body::Effect(body), None, None);
        let ghost s1 = *self;
        self.runs = Ghost(self.runs@.update(index as int, 1));
        let ghost s2 = *self;
        self.flush();
        proof {
            Runtime::lemma_store_only_change(s0, *old(self));
            assert(old(self).keeps_disposed_idle(s0));
            Runtime::lemma_keeps_disposed_idle_trans(*old(self), s0, s1);
            Runtime::lemma_run_keeps_disposed_idle(s1, s2, index as int);
            Runtime::lemma_keeps_disposed_idle_trans(*old(self), s1, s2);
            Runtime::lemma_keeps_disposed_idle_trans(*old(self), s2, *self);
            EffectId::lemma_spec_from_index(e, old(self).effect_count());
            assert(s2.run_count(e) == 1);
            assert(s2.store() == s0.store());
            assert(s2.store_only_change(s1));
            Runtime::lemma_store_only_change(s2, s1);
            assert forall|x: EffectId| x.id() < old(self).effect_count() implies self.effect_alive(x) == old(self).effect_alive(x) by {
                assert(s0.effect_alive(x) == old(self).effect_alive(x));
                assert(s1.effect_alive(x) == s0.effect_alive(x));
                assert(s2.effect_alive(x) == s1.effect_alive(x));
            }
            assert forall|sc: ScopeId| sc.id() < old(self).scope_count() implies self.scope_alive(sc) == old(self).scope_alive(sc) by {
                assert(s0.scope_alive(sc) == old(self).scope_alive(sc));
                assert(s1.scope_alive(sc) == s0.scope_alive(sc));
                assert(s2.scope_alive(sc) == s1.scope_alive(sc));
            }
            s0.store().lemma_keeps_subscriptions_trans(s2.store(), self.store());
            if old(self).store().pending().len() == 0 && body.writes().is_empty() {
                assert(s2.store().pending().len() == 0);
            }
            assert forall|t: Signal|
                old(self).store().holds(t) && body.always_reads().contains(t)
                    implies #[trigger] self.store().subscribers(t).contains(e) by {
                assert(s0.store().subscribers(t).contains(e));
                assert(s0.store().holds(t));
                assert(s2.store().subscribers(t).contains(e));
            }
        }
        e
    }

    /// Whether `scope` names a scope of this runtime that is not disposed.
    pub fn is_scope_alive(&self, scope: ScopeId) -> (r: bool)
        requires
            self.wf(),
        ensures
            r == self.scope_alive(scope),
    {
        scope.index < self.scope_alive.len() && self.scope_alive[scope.index]
    }

    /// Create an effect owned by `scope`; `None` (and nothing run) when the
    /// scope is unknown or already disposed.
    pub fn create_effect_in_scope(&mut self, scope: ScopeId, body: Box<dyn Reaction<V>>) -> (r:
        Option<EffectId>)
        requires
            old(self).wf(),
        ensures
            final(self).wf(),
            old(self).keeps_disposed_idle(*final(self)),
            !old(self).scope_alive(scope) <==> r.is_none(),
            r.is_none() ==> final(self).same_bookkeeping(*old(self)) && final(self).store() == old(self).store(),
            r.is_some() ==> r.unwrap().id() == old(self).effect_count() && final(self).effect_count() == old(self).effect_count() + 1 && final(self).effect_alive(
                r.unwrap(),
            ) && final(self).effect_scope(r.unwrap()) == Some(scope),
            final(self).store().running() == old(self).store().running(),
            r matches Some(e) ==> final(self).run_count(e) >= 1,
            r is Some && old(self).store().pending().len() == 0 && body.writes().is_empty()
                ==> final(self).run_count(r.unwrap()) == 1,
            forall|t: Signal|
                r is Some && old(self).store().holds(t) && body.always_reads().contains(t)
                    ==> #[trigger] final(self).store().subscribers(t).contains(r.unwrap()),
    {
        if !self.is_scope_alive(scope) {
            return None;
        }
        self.first_run(&body);
        let ghost s0 = *self;
        let index = self.bodies.len();
        let e = self.add_effect(Body::Effect(body), Some(scope), None);
        let ghost s1 = *self;
        self.runs = Ghost(self.runs@.update(index as int, 1));
        let ghost s2 = *self;
        self.flush();
        proof {
            Runtime::lemma_store_only_change(s0, *old(self));
            assert(old(self).keeps_disposed_idle(s0));
            Runtime::lemma_keeps_disposed_idle_trans(*old(self), s0, s1);
            Runtime::lemma_run_keeps_disposed_idle(s1, s2, index as int);
            Runtime::lemma_keeps_disposed_idle_trans(*old(self), s1, s2);
            Runtime::lemma_keeps_disposed_idle_trans(*old(self), s2, *self);
            EffectId::lemma_spec_from_index(e, old(self).effect_count());
            assert(s2.run_count(e) == 1);
            assert(s2.store() == s0.store());
            assert(s2.store_only_change(s1));
            Runtime::lemma_store_only_change(s2, s1);
            s0.store().lemma_keeps_subscriptions_trans(s2.store(), self.store());
            if old(self).store().pending().len() == 0 && body.writes().is_empty() {
                assert(s2.store().pending().len() == 0);
            }
            assert forall|t: Signal|
                old(self).store().holds(t) && body.always_reads().contains(t)
                    implies #[trigger] self.store().subscribers(t).contains(e) by {
                assert(s0.store().subscribers(t).contains(e));
                assert(s0.store().holds(t));
                assert(s2.store().subscribers(t).contains(e));
            }
        }
        Some(e)
    }

    /// The first run of a computed value's effect, the effect that will be
    /// created next: evaluate `body`, tracking its reads for that effect,
    /// and store the result in `target`.
    pub(crate) fn derive_first(&mut self, body: &Box<dyn Computation<V>>, target: Signal)
        requires
            old(self).wf(),
        ensures
            final(self).wf(),
            final(self).same_bookkeeping(*old(self)),
            old(self).keeps_disposed_idle(*final(self)),
            forall|e: EffectId| #[trigger] final(self).run_count(e) == old(self).run_count(e),
            final(self).store().running() == old(self).store().running(),
            final(self).store().len() >= old(self).store().len(),
            body.writes().is_empty() && !body.reads().contains(target) && old(self).store().holds(target)
                && old(self).store().pending().len() == 0 && old(self).store().subscribers(target).len() == 0
                && body.result(old(self).store().values()) is Some
                ==> final(self).store().values() == old(self).store().values().update(
                target.id() as int,
                body.result(old(self).store().values()).unwrap(),
            ) && final(self).store().pending().len() == 0,
            body.writes().is_empty() && !body.reads().contains(target) && old(self).store().holds(target)
                && old(self).store().pending().len() == 0 && old(self).store().subscribers(target).len() == 0
                ==> final(self).store().pending().len() == 0,
    {
        let index = self.bodies.len();
        let previous = self.store.current_effect();
        self.store.set_running(Some(EffectId::from_index(index)));
        let value = body.compute(&mut self.store);
        self.store.set_running(previous);
        if target.value_index() < self.store.signal_count() {
            let ghost before_set = self.store();
            self.store.set(target, value);
            proof {
                lemma_enqueue_all(before_set.pending(), before_set.subscribers(target));
            }
        }
    }

    /// Create the effect of a computed value whose first run `derive_first`
    /// made, and run whatever that run queued.
    pub(crate) fn install_derived(
        &mut self,
        body: Box<dyn Computation<V>>,
        target: Signal,
        scope: Option<ScopeId>,
    ) -> (e: EffectId)
        requires
            old(self).wf(),
            scope.is_some() ==> old(self).scope_alive(scope.unwrap()),
        ensures
            final(self).wf(),
            old(self).keeps_disposed_idle(*final(self)),
            e.id() == old(self).effect_count(),
            final(self).effect_count() == old(self).effect_count() + 1,
            final(self).effect_alive(e),
            final(self).effect_scope(e) == scope,
            final(self).effect_target(e) == Some(target),
            final(self).scope_count() == old(self).scope_count(),
            final(self).store().running() == old(self).store().running(),
            final(self).store().len() >= old(self).store().len(),
            old(self).store().pending().len() == 0 ==> final(self).store() == old(self).store(),
            final(self).run_count(e) >= 1,
            old(self).store().pending().len() == 0 ==> final(self).run_count(e) == 1,
    {
        let index = self.bodies.len();
        let e = self.add_effect(Body::Derived(body, target), scope, Some(target));
        let ghost s1 = *self;
        self.runs = Ghost(self.runs@.update(index as int, 1));
        let ghost s2 = *self;
        self.flush();
        proof {
            assert(s1.runs@[index as int] == 0);
            Runtime::lemma_run_keeps_disposed_idle(s1, s2, index as int);
            Runtime::lemma_keeps_disposed_idle_trans(*old(self), s1, s2);
            Runtime::lemma_keeps_disposed_idle_trans(*old(self), s2, *self);
        }
        e
    }

    /// Create a scope, inside `parent` when `parent` names a scope of this
    /// runtime and at the top level otherwise.
    pub fn create_scope(&mut self, parent: Option<ScopeId>) -> (s: ScopeId)
        requires
            old(self).wf(),
        ensures
            final(self).wf(),
            old(self).keeps_disposed_idle(*final(self)),
            s.id() == old(self).scope_count(),
            final(self).scope_count() == old(self).scope_count() + 1,
            final(self).scope_alive(s),
            final(self).scope_parent(s) == (match parent {
                Some(p) => if p.id() < old(self).scope_count() {
                    Some(p)
                } else {
                    None::<ScopeId>
                },
                None => None::<ScopeId>,
            }),
            final(self).effect_count() == old(self).effect_count(),
            forall|x: EffectId|
                x.id() < old(self).effect_count() ==> final(self).effect_alive(x) == old(self).effect_alive(x) && final(self).effect_scope(x) == old(self).effect_scope(x),
            forall|t: ScopeId|
                t.id() < old(self).scope_count() ==> final(self).scope_alive(t) == old(self).scope_alive(t) && final(self).scope_parent(t) == old(self).scope_parent(t),
            final(self).store() == old(self).store(),
    {
        let index = self.scope_parent.len();
        let recorded = match parent {
            Some(p) => if p.index < index {
                Some(p)
            } else {
                None
            },
            None => None,
        };
        self.scope_parent.push(recorded);
        self.scope_alive.push(true);
        let s = ScopeId { index };
        assert forall|e: int|
            0 <= e < self.effect_scope@.len() && (#[trigger] self.effect_scope@[e]).is_some()
                implies self.effect_scope@[e].unwrap().id() < self.scope_parent@.len() by {
            assert(self.effect_scope@[e] == old(self).effect_scope@[e]);
        }
        assert forall|t: ScopeId| t.id() < old(self).scope_count() implies final(self).scope_parent(t) == old(self).scope_parent(t) by {
            assert(self.scope_parent@[t.id() as int] == old(self).scope_parent@[t.id() as int]);
        }
        s
    }

    /// Dispose `target` and every scope within it: their effects are
    /// unsubscribed from all signals, dropped from the queue and never run again.
    #[verifier::spinoff_prover]
    pub fn dispose_scope(&mut self, target: ScopeId)
        requires
            old(self).wf(),
        ensures
            final(self).wf(),
            old(self).keeps_disposed_idle(*final(self)),
            final(self).effect_count() == old(self).effect_count(),
            final(self).scope_count() == old(self).scope_count(),
            forall|s: ScopeId|
                s.id() < old(self).scope_count() ==> final(self).scope_alive(s) == (old(self).scope_alive(s) && !old(self).within(s, target)) && final(self).scope_parent(s)
                    == old(self).scope_parent(s),
            forall|e: EffectId|
                e.id() < old(self).effect_count() ==> final(self).effect_alive(e) == (old(self).effect_alive(e) && !old(self).doomed(e.id() as int, target)) && final(self).effect_scope(e) == old(self).effect_scope(e) && final(self).effect_target(e)
                    == old(self).effect_target(e),
            final(self).store().len() == old(self).store().len(),
            forall|t: Signal|
                old(self).store().holds(t) ==> final(self).store().value(t) == old(self).store().value(t) && final(self).store().subscribers(t) == filter_kept(
                    old(self).store().subscribers(t),
                    old(self).survivors(target),
                ),
            final(self).store().pending() == filter_kept(
                old(self).store().pending(),
                old(self).survivors(target),
            ),
            final(self).store().running() == old(self).store().running(),
            forall|e: EffectId, t: Signal|
                e.id() < old(self).effect_count() && old(self).doomed(e.id() as int, target) && old(self).store().holds(t)
                    ==> !(#[trigger] final(self).store().subscribers(t).contains(e)) && !final(self).store().pending().contains(e),
    {
        let n = self.scope_parent.len();
        let mut dead: Vec<bool> = Vec::new();
        let mut i: usize = 0;
        while i < n
            invariant
                self.wf(),
                self == old(self),
                n == self.scope_parent@.len(),
                i <= n,
                dead@.len() == i,
                forall|j: int|
                    0 <= j < i ==> #[trigger] dead@[j] == self.within(ScopeId { index: j as usize }, target),
            decreases n - i,
        {
            let here = ScopeId { index: i };
            let d = if i == target.index {
                true
            } else {
                match self.scope_parent[i] {
                    Some(p) => p.index < i && dead[p.index],
                    None => false,
                }
            };
            proof {
                assert(d == self.within(here, target)) by {
                    match self.scope_parent@[i as int] {
                        Some(p) => {
                            if p.id() < i {
                                assert(p == ScopeId { index: p.index });
                            }
                        },
                        None => {},
                    }
                };
            }
            dead.push(d);
            i = i + 1;
        }
        let m = self.bodies.len();
        let mut keep: Vec<bool> = Vec::new();
        let mut k: usize = 0;
        while k < m
            invariant
                self.wf(),
                self == old(self),
                m == self.bodies@.len(),
                n == self.scope_parent@.len(),
                dead@.len() == n,
                forall|j: int|
                    0 <= j < n ==> #[trigger] dead@[j] == self.within(ScopeId { index: j as usize }, target),
                k <= m,
                keep@.len() == k,
                forall|j: int| 0 <= j < k ==> #[trigger] keep@[j] == !self.doomed(j, target),
            decreases m - k,
        {
            let doomed = match self.effect_scope[k] {
                Some(s) => dead[s.index],
                None => false,
            };
            proof {
                match self.effect_scope@[k as int] {
                    Some(s) => {
                        assert(s == ScopeId { index: s.index });
                    },
                    None => {},
                }
            }
            keep.push(!doomed);
            k = k + 1;
        }
        assert(keep@ == self.survivors(target));
        let mut e: usize = 0;
        while e < m
            invariant
                self.wf(),
                m == self.bodies@.len(),
                m == self.effect_alive@.len(),
                keep@ == old(self).survivors(target),
                self.bodies@ == old(self).bodies@,
                self.effect_scope@ == old(self).effect_scope@,
                self.effect_target@ == old(self).effect_target@,
                self.runs == old(self).runs,
                self.scope_parent@ == old(self).scope_parent@,
                self.scope_alive@ == old(self).scope_alive@,
                self.store == old(self).store,
                e <= m,
                forall|j: int|
                    0 <= j < e ==> #[trigger] self.effect_alive@[j] == (old(self).effect_alive@[j]
                        && keep@[j]),
                forall|j: int|
                    e <= j < m ==> #[trigger] self.effect_alive@[j] == old(self).effect_alive@[j],
            decreases m - e,
        {
            if !keep[e] {
                self.effect_alive.set(e, false);
            }
            e = e + 1;
        }
        let mut s: usize = 0;
        while s < n
            invariant
                self.wf(),
                n == self.scope_alive@.len(),
                dead@.len() == n,
                forall|j: int|
                    0 <= j < n ==> #[trigger] dead@[j] == old(self).within(ScopeId { index: j as usize }, target),
                self.bodies@ == old(self).bodies@,
                self.effect_scope@ == old(self).effect_scope@,
                self.effect_target@ == old(self).effect_target@,
                self.runs == old(self).runs,
                self.scope_parent@ == old(self).scope_parent@,
                self.store == old(self).store,
                forall|j: int|
                    0 <= j < m ==> #[trigger] self.effect_alive@[j] == (old(self).effect_alive@[j]
                        && keep@[j]),
                m == self.bodies@.len(),
                keep@ == old(self).survivors(target),
                s <= n,
                forall|j: int|
                    0 <= j < s ==> #[trigger] self.scope_alive@[j] == (old(self).scope_alive@[j]
                        && !dead@[j]),
                forall|j: int|
                    s <= j < n ==> #[trigger] self.scope_alive@[j] == old(self).scope_alive@[j],
            decreases n - s,
        {
            if dead[s] {
                self.scope_alive.set(s, false);
            }
            s = s + 1;
        }
        self.store.retain_effects(&keep);
        assert forall|sc: ScopeId| sc.id() < old(self).scope_count() implies final(self).scope_alive(sc) == (old(self).scope_alive(sc) && !old(self).within(sc, target)) by {
            assert(sc == ScopeId { index: sc.index });
            assert(dead@[sc.id() as int] == old(self).within(sc, target));
        }
        assert forall|x: EffectId| x.id() < old(self).effect_count() implies final(self).effect_alive(x) == (old(self).effect_alive(x) && !old(self).doomed(
            x.id() as int,
            target,
        )) by {
            assert(keep@[x.id() as int] == !old(self).doomed(x.id() as int, target));
        }
        assert forall|x: EffectId, t: Signal|
            x.id() < old(self).effect_count() && old(self).doomed(x.id() as int, target) && old(self).store().holds(t)
                implies !(#[trigger] self.store().subscribers(t).contains(x)) && !self.store().pending().contains(x) by {
            let sv = old(self).survivors(target);
            assert(!kept(sv, x));
            lemma_filter_kept(old(self).store().subscribers(t), sv);
            lemma_filter_kept(old(self).store().pending(), sv);
        }
    }
}

impl Signal {
    /// Create a signal holding `value` in `rt`.
    pub fn new<V>(rt: &mut Runtime<V>, value: V) -> (s: Signal)
        requires
            old(rt).wf(),
        ensures
            final(rt).wf(),
            old(rt).keeps_disposed_idle(*final(rt)),
            s.id() == old(rt).store().len(),
            final(rt).store().value(s) == value,
            final(rt).store().subscribers(s) == Seq::<EffectId>::empty(),
            final(rt).store().len() == old(rt).store().len() + 1,
            final(rt).same_bookkeeping(*old(rt)),
    {
        rt.create_signal(value)
    }

    /// Read the value; the running effect, if any, subscribes to the signal
    /// (once), and at the top level, where none runs, nothing subscribes.
    pub fn get<V: Clone>(&self, rt: &mut Runtime<V>) -> (r: V)
        requires
            old(rt).wf(),
            old(rt).store().holds(*self),
        ensures
            final(rt).wf(),
            old(rt).keeps_disposed_idle(*final(rt)),
            cloned(old(rt).store().value(*self), r),
            final(rt).same_bookkeeping(*old(rt)),
            final(rt).store().len() == old(rt).store().len(),
            forall|t: Signal|
                old(rt).store().holds(t) ==> final(rt).store().value(t) == old(rt).store().value(t),
            final(rt).store().subscribers(*self) == track(old(rt).store().subscribers(*self), old(rt).store().running()),
            final(rt).store().subscribers(*self).no_duplicates(),
            forall|t: Signal|
                old(rt).store().holds(t) && t != *self ==> final(rt).store().subscribers(t) == old(rt).store().subscribers(t),
            final(rt).store().running() == old(rt).store().running(),
            final(rt).store().pending() == old(rt).store().pending(),
    {
        rt.get(*self)
    }

    /// Write a new value and run the effects it schedules.
    pub fn set<V>(&self, rt: &mut Runtime<V>, value: V)
        requires
            old(rt).wf(),
            old(rt).store().holds(*self),
        ensures
            final(rt).wf(),
            old(rt).keeps_disposed_idle(*final(rt)),
            final(rt).same_bookkeeping(*old(rt)),
            final(rt).store().running() == old(rt).store().running(),
            old(rt).store().pending().len() == 0 && old(rt).store().subscribers(*self).len() == 0
                ==> final(rt).store().value(*self) == value,
            final(rt).store().len() >= old(rt).store().len(),
            !old(rt).live_writer(*self) ==> final(rt).store().value(*self) == value,
            forall|t: Signal|
                old(rt).store().holds(t) && t != *self && !old(rt).live_writer(t) ==> #[trigger] final(rt).store().value(t)
                    == old(rt).store().value(t),
            old(rt).runs_grow(*final(rt)),
            final(rt).store().pending().len() == 0 ==> old(rt).ran_all(*final(rt), old(rt).store().subscribers(*self))
                && old(rt).ran_all(*final(rt), old(rt).store().pending()),
    {
        rt.set(*self, value)
    }

    /// Replace the value by `f` of it and run the effects this schedules.
    pub fn update<V: Clone, F: FnOnce(V) -> V>(&self, rt: &mut Runtime<V>, f: F)
        requires
            old(rt).wf(),
            old(rt).store().holds(*self),
            forall|v: V| call_requires(f, (v,)),
        ensures
            final(rt).wf(),
            old(rt).keeps_disposed_idle(*final(rt)),
            final(rt).same_bookkeeping(*old(rt)),
            final(rt).store().running() == old(rt).store().running(),
            old(rt).store().pending().len() == 0 && old(rt).store().subscribers(*self).len() == 0
                ==> exists|c: V|
                cloned(old(rt).store().value(*self), c) && call_ensures(
                    f,
                    (c,),
                    final(rt).store().value(*self),
                ),
            final(rt).store().len() >= old(rt).store().len(),
            !old(rt).live_writer(*self) ==> exists|c: V|
                cloned(old(rt).store().value(*self), c) && call_ensures(f, (c,), final(rt).store().value(*self)),
            forall|t: Signal|
                old(rt).store().holds(t) && t != *self && !old(rt).live_writer(t) ==> #[trigger] final(rt).store().value(t)
                    == old(rt).store().value(t),
            old(rt).runs_grow(*final(rt)),
            final(rt).store().pending().len() == 0 ==> old(rt).ran_all(*final(rt), old(rt).store().subscribers(*self))
                && old(rt).ran_all(*final(rt), old(rt).store().pending()),
    {
        rt.update(*self, f)
    }

    /// The signal's subscriber bookkeeping.
    pub fn signal_core<'a, V>(&self, rt: &'a Runtime<V>) -> (c: &'a SignalCore)
        requires
            rt.store().holds(*self),
        ensures
            c.subscribers@ == rt.store().subscribers(*self),
    {
        rt.signals().signal_core(*self)
    }
}

/// Create a signal holding `value` in `rt`.
pub fn signal<V>(rt: &mut Runtime<V>, value: V) -> (s: Signal)
    requires
        old(rt).wf(),
    ensures
        final(rt).wf(),
        old(rt).keeps_disposed_idle(*final(rt)),
        s.id() == old(rt).store().len(),
        final(rt).store().value(s) == value,
        final(rt).store().subscribers(s) == Seq::<EffectId>::empty(),
        final(rt).store().len() == old(rt).store().len() + 1,
        final(rt).same_bookkeeping(*old(rt)),
        forall|t: Signal|
            old(rt).store().holds(t) ==> final(rt).store().value(t) == old(rt).store().value(t)
                && final(rt).store().subscribers(t) == old(rt).store().subscribers(t),
        final(rt).store().running() == old(rt).store().running(),
        final(rt).store().pending() == old(rt).store().pending(),
{
    rt.create_signal(value)
}

/// Create an effect in `rt` (see `Runtime::create_effect`).
pub fn create_effect<V>(rt: &mut Runtime<V>, body: Box<dyn Reaction<V>>) -> (e: EffectId)
    requires
        old(rt).wf(),
    ensures
        final(rt).wf(),
        old(rt).keeps_disposed_idle(*final(rt)),
        e.id() == old(rt).effect_count(),
        final(rt).effect_count() == old(rt).effect_count() + 1,
        final(rt).effect_alive(e),
        final(rt).effect_scope(e) == None::<ScopeId>,
        final(rt).effect_target(e) == None::<Signal>,
        final(rt).scope_count() == old(rt).scope_count(),
        forall|x: EffectId|
            x.id() < old(rt).effect_count() ==> final(rt).effect_alive(x) == old(rt).effect_alive(x),
        forall|s: ScopeId|
            s.id() < old(rt).scope_count() ==> final(rt).scope_alive(s) == old(rt).scope_alive(s),
        final(rt).store().running() == old(rt).store().running(),
        final(rt).run_count(e) >= 1,
{
    rt.create_effect(body)
}

/// Run `body` untracked and then the effects its writes scheduled; the
/// queue is empty afterwards unless the flush took its whole budget.
pub fn batch<V, R: Reaction<V>>(rt: &mut Runtime<V>, body: &R)
    requires
        old(rt).wf(),
    ensures
        final(rt).wf(),
        old(rt).keeps_disposed_idle(*final(rt)),
        final(rt).same_bookkeeping(*old(rt)),
        final(rt).store().running() == old(rt).store().running(),
        old(rt).dequeued() <= final(rt).dequeued() <= old(rt).dequeued() + MAX_EFFECT_RUNS,
        final(rt).store().pending().len() == 0 || final(rt).dequeued() == old(rt).dequeued()
            + MAX_EFFECT_RUNS,
        old(rt).runs_grow(*final(rt)),
        final(rt).store().pending().len() == 0 ==> old(rt).ran_all(*final(rt), old(rt).store().pending()),
        final(rt).store().len() >= old(rt).store().len(),
        body.outcome(old(rt).store().values()) matches Some(vs) ==> forall|t: Signal|
            old(rt).store().holds(t) && !old(rt).live_writer(t) ==> #[trigger] final(rt).store().value(t)
                == vs[t.id() as int],
        final(rt).store().pending().len() == 0 ==> forall|t: Signal, x: EffectId|
            old(rt).store().holds(t) && !old(rt).live_writer(t) && final(rt).store().value(t) != old(rt).store().value(t)
                && #[trigger] old(rt).store().subscribers(t).contains(x) && old(rt).effect_alive(x)
                ==> final(rt).run_count(x) > old(rt).run_count(x),
{
    rt.batch(body)
}

/// Create a top-level scope, or one inside `parent`.
pub fn create_scope<V>(rt: &mut Runtime<V>, parent: Option<ScopeId>) -> (s: ScopeId)
    requires
        old(rt).wf(),
    ensures
        final(rt).wf(),
        old(rt).keeps_disposed_idle(*final(rt)),
        s.id() == old(rt).scope_count(),
        final(rt).scope_count() == old(rt).scope_count() + 1,
        final(rt).scope_alive(s),
        final(rt).scope_parent(s) == (match parent {
            Some(p) => if p.id() < old(rt).scope_count() {
                Some(p)
            } else {
                None::<ScopeId>
            },
            None => None::<ScopeId>,
        }),
        final(rt).effect_count() == old(rt).effect_count(),
        forall|x: EffectId|
            x.id() < old(rt).effect_count() ==> final(rt).effect_alive(x) == old(rt).effect_alive(x)
                && final(rt).effect_scope(x) == old(rt).effect_scope(x),
        forall|t: ScopeId|
            t.id() < old(rt).scope_count() ==> final(rt).scope_alive(t) == old(rt).scope_alive(t)
                && final(rt).scope_parent(t) == old(rt).scope_parent(t),
        final(rt).store() == old(rt).store(),
{
    rt.create_scope(parent)
}

/// Dispose `scope` and the scopes within it (see `Runtime::dispose_scope`).
pub fn dispose_scope<V>(rt: &mut Runtime<V>, scope: ScopeId)
    requires
        old(rt).wf(),
    ensures
        final(rt).wf(),
        old(rt).keeps_disposed_idle(*final(rt)),
        !final(rt).scope_alive(scope),
        final(rt).effect_count() == old(rt).effect_count(),
        final(rt).scope_count() == old(rt).scope_count(),
        forall|e: EffectId|
            e.id() < old(rt).effect_count() && old(rt).effect_scope(e) == Some(scope) ==> !final(rt).effect_alive(e),
        forall|s: ScopeId|
            s.id() < old(rt).scope_count() ==> final(rt).scope_alive(s) == (old(rt).scope_alive(s) && !old(rt).within(s, scope))
                && final(rt).scope_parent(s) == old(rt).scope_parent(s),
        forall|e: EffectId|
            e.id() < old(rt).effect_count() ==> final(rt).effect_alive(e) == (old(rt).effect_alive(e) && !old(rt).doomed(e.id() as int, scope))
                && final(rt).effect_scope(e) == old(rt).effect_scope(e) && final(rt).effect_target(e) == old(rt).effect_target(e),
        final(rt).store().len() == old(rt).store().len(),
        forall|t: Signal|
            old(rt).store().holds(t) ==> final(rt).store().value(t) == old(rt).store().value(t)
                && final(rt).store().subscribers(t) == filter_kept(old(rt).store().subscribers(t), old(rt).survivors(scope)),
        final(rt).store().pending() == filter_kept(old(rt).store().pending(), old(rt).survivors(scope)),
        final(rt).store().running() == old(rt).store().running(),
        forall|e: EffectId, t: Signal|
            e.id() < old(rt).effect_count() && old(rt).doomed(e.id() as int, scope) && old(rt).store().holds(t)
                ==> !(#[trigger] final(rt).store().subscribers(t).contains(e)) && !final(rt).store().pending().contains(e),
{
    rt.dispose_scope(scope);
    proof {
        assert forall|e: EffectId|
            e.id() < old(rt).effect_count() && old(rt).effect_scope(e) == Some(scope) implies !final(rt).effect_alive(e) by {
            lemma_scope_within_itself(*old(rt), scope);
        }
        if scope.id() < old(rt).scope_count() {
            lemma_scope_within_itself(*old(rt), scope);
        }
    }
}

/// A scope lies within itself.
pub proof fn lemma_scope_within_itself<V>(rt: Runtime<V>, s: ScopeId)
    requires
        s.id() < rt.scope_count(),
    ensures
        rt.within(s, s),
{
}

} // verus!
