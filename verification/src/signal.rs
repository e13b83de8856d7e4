//! Reactive signals and their dependency bookkeeping.
//!
//! A [`SignalStore`] holds the value of every signal, the effects subscribed
//! to each signal, the effect currently running (whose reads are tracked) and
//! the queue of effects waiting to re-run. Effect bodies receive the store
//! and read and write signals through it.
use vstd::prelude::*;

verus! {

/// Identifies an effect of a reactive runtime.
#[derive(Clone, Copy, PartialEq, Eq, Debug, Structural)]
pub struct EffectId {
    index: usize,
}

impl EffectId {
    /// The effect's position in its runtime.
    pub closed spec fn id(self) -> nat {
        self.index as nat
    }

    /// An id for the effect at `index`.
    pub(crate) fn from_index(index: usize) -> (e: EffectId)
        ensures
            e.id() == index,
    {
        EffectId { index }
    }

    /// The effect's position in its runtime.
    pub fn value(&self) -> (v: usize)
        ensures
            v == self.id(),
    {
        self.index
    }

    /// The id of the effect at position `n`.
    pub closed spec fn spec_from_index(n: nat) -> EffectId {
        EffectId { index: n as usize }
    }

    /// An id is the id of its own position.
    pub proof fn lemma_spec_from_index(e: EffectId, n: nat)
        requires
            e.id() == n,
        ensures
            e == EffectId::spec_from_index(n),
    {
    }

    /// Two ids name the same effect exactly when their positions agree.
    pub proof fn lemma_id_injective(a: EffectId, b: EffectId)
        ensures
            (a.id() == b.id()) <==> (a == b),
    {
    }
}

/// A handle to a reactive value held by a [`SignalStore`].
#[derive(Clone, Copy, PartialEq, Eq, Debug, Structural)]
pub struct Signal {
    index: usize,
}

impl Signal {
    /// The signal's position in its store.
    pub closed spec fn id(self) -> nat {
        self.index as nat
    }

    /// The signal's position in its store.
    pub fn value_index(&self) -> (v: usize)
        ensures
            v == self.id(),
    {
        self.index
    }
}

/// `subs` without any occurrence of `e`.
pub open spec fn remove_all(subs: Seq<EffectId>, e: EffectId) -> Seq<EffectId>
    decreases subs.len(),
{
    if subs.len() == 0 {
        subs
    } else {
        let prev = remove_all(subs.drop_last(), e);
        if subs.last() == e {
            prev
        } else {
            prev.push(subs.last())
        }
    }
}

/// Whether effect `e` is kept when `keep` marks the effects to keep; effects
/// beyond the end of `keep` are kept.
pub open spec fn kept(keep: Seq<bool>, e: EffectId) -> bool {
    e.id() >= keep.len() || keep[e.id() as int]
}

/// The elements of `subs` that `keep` keeps, in order.
pub open spec fn filter_kept(subs: Seq<EffectId>, keep: Seq<bool>) -> Seq<EffectId>
    decreases subs.len(),
{
    if subs.len() == 0 {
        subs
    } else {
        let prev = filter_kept(subs.drop_last(), keep);
        if kept(keep, subs.last()) {
            prev.push(subs.last())
        } else {
            prev
        }
    }
}

/// `queue` with each of `items` appended unless already queued.
pub open spec fn enqueue_all(queue: Seq<EffectId>, items: Seq<EffectId>) -> Seq<EffectId>
    decreases items.len(),
{
    if items.len() == 0 {
        queue
    } else {
        let prev = enqueue_all(queue, items.drop_last());
        if prev.contains(items.last()) {
            prev
        } else {
            prev.push(items.last())
        }
    }
}

/// `later` is `queue` with (possibly) more entries appended.
pub open spec fn extends(queue: Seq<EffectId>, later: Seq<EffectId>) -> bool {
    &&& queue.len() <= later.len()
    &&& forall|i: int| 0 <= i < queue.len() ==> #[trigger] later[i] == queue[i]
}

/// The subscriber list after a tracked read while `running` is the running effect.
pub open spec fn track(subs: Seq<EffectId>, running: Option<EffectId>) -> Seq<EffectId> {
    match running {
        Some(e) => if subs.contains(e) {
            subs
        } else {
            subs.push(e)
        },
        None => subs,
    }
}

/// Removing an effect keeps the others, in order, and drops every occurrence of it.
pub proof fn lemma_remove_all(subs: Seq<EffectId>, e: EffectId)
    ensures
        forall|x: EffectId| #[trigger]
            remove_all(subs, e).contains(x) <==> (subs.contains(x) && x != e),
        subs.no_duplicates() ==> remove_all(subs, e).no_duplicates(),
    decreases subs.len(),
{
    let mut keep: Seq<bool> = Seq::new((e.id() + 1) as nat, |i: int| i != e.id());
    lemma_remove_all_is_filter(subs, e);
    lemma_filter_kept(subs, keep);
    assert forall|x: EffectId| kept(keep, x) <==> x != e by {
        EffectId::lemma_id_injective(x, e);
    }
}

/// Removing one effect is filtering with a mask that drops only that effect.
pub proof fn lemma_remove_all_is_filter(subs: Seq<EffectId>, e: EffectId)
    ensures
        remove_all(subs, e) == filter_kept(subs, Seq::new((e.id() + 1) as nat, |i: int| i != e.id())),
    decreases subs.len(),
{
    let keep = Seq::new((e.id() + 1) as nat, |i: int| i != e.id());
    if subs.len() > 0 {
        lemma_remove_all_is_filter(subs.drop_last(), e);
        EffectId::lemma_id_injective(subs.last(), e);
    }
}

/// Filtering keeps exactly the kept elements and preserves the absence of duplicates.
pub proof fn lemma_filter_kept(subs: Seq<EffectId>, keep: Seq<bool>)
    ensures
        forall|x: EffectId| #[trigger]
            filter_kept(subs, keep).contains(x) <==> (subs.contains(x) && kept(keep, x)),
        subs.no_duplicates() ==> filter_kept(subs, keep).no_duplicates(),
    decreases subs.len(),
{
    if subs.len() > 0 {
        let d = subs.drop_last();
        let prev = filter_kept(d, keep);
        let cur = filter_kept(subs, keep);
        lemma_filter_kept(d, keep);
        assert forall|x: EffectId| #[trigger] cur.contains(x) <==> (subs.contains(x) && kept(keep, x)) by {
            if subs.contains(x) && kept(keep, x) {
                let k = choose|k: int| 0 <= k < subs.len() && subs[k] == x;
                if k < subs.len() - 1 {
                    assert(d[k] == x);
                    assert(d.contains(x));
                    assert(prev.contains(x));
                    let j = choose|j: int| 0 <= j < prev.len() && prev[j] == x;
                    assert(cur[j] == x);
                } else {
                    assert(cur[cur.len() - 1] == x);
                }
            }
            if cur.contains(x) {
                let k = choose|k: int| 0 <= k < cur.len() && cur[k] == x;
                if k < prev.len() {
                    assert(prev[k] == x);
                    assert(prev.contains(x));
                    let j = choose|j: int| 0 <= j < d.len() && d[j] == x;
                    assert(subs[j] == x);
                } else {
                    assert(subs[subs.len() - 1] == x);
                }
            }
        }
        if subs.no_duplicates() {
            assert(d.no_duplicates());
            if kept(keep, subs.last()) {
                assert(!d.contains(subs.last()));
                assert(!prev.contains(subs.last()));
            }
        }
    }
}

/// Enqueueing keeps the queue free of duplicates and holds exactly the old
/// queue and the new items.
pub proof fn lemma_enqueue_all(queue: Seq<EffectId>, items: Seq<EffectId>)
    ensures
        forall|x: EffectId| #[trigger]
            enqueue_all(queue, items).contains(x) <==> (queue.contains(x) || items.contains(x)),
        queue.no_duplicates() ==> enqueue_all(queue, items).no_duplicates(),
        enqueue_all(queue, items).len() >= queue.len(),
        forall|k: int|
            0 <= k < queue.len() ==> #[trigger] enqueue_all(queue, items)[k] == queue[k],
    decreases items.len(),
{
    if items.len() > 0 {
        let prev = enqueue_all(queue, items.drop_last());
        lemma_enqueue_all(queue, items.drop_last());
        assert forall|x: EffectId| #[trigger]
            enqueue_all(queue, items).contains(x) <==> (queue.contains(x) || items.contains(
                x,
            )) by {
            if items.contains(x) {
                let k = choose|k: int| 0 <= k < items.len() && items[k] == x;
                if k < items.len() - 1 {
                    assert(items.drop_last()[k] == x);
                } else if !prev.contains(x) {
                    assert(enqueue_all(queue, items).last() == x);
                }
            }
            if queue.contains(x) || items.drop_last().contains(x) {
                assert(prev.contains(x));
                let k = choose|k: int| 0 <= k < prev.len() && prev[k] == x;
                assert(enqueue_all(queue, items)[k] == x);
            }
            if enqueue_all(queue, items).contains(x) {
                let k = choose|k: int|
                    0 <= k < enqueue_all(queue, items).len() && enqueue_all(queue, items)[k]
                        == x;
                if k < prev.len() {
                    assert(prev[k] == x);
                    if items.drop_last().contains(x) {
                        let j = choose|j: int|
                            0 <= j < items.drop_last().len() && items.drop_last()[j] == x;
                        assert(items[j] == x);
                    }
                } else {
                    assert(items[items.len() - 1] == x);
                }
            }
        }
    }
}

/// Bookkeeping of one signal: the effects that re-run when it changes.
pub struct SignalCore {
    /// Effects currently subscribed to this signal, in subscription order.
    pub subscribers: Vec<EffectId>,
}

impl SignalCore {
    /// A core with no subscribers.
    pub fn new() -> (core: SignalCore)
        ensures
            core.subscribers@ == Seq::<EffectId>::empty(),
    {
        SignalCore { subscribers: Vec::new() }
    }

    /// Removes the given effect from this signal's subscriber list.
    pub fn remove_subscriber(&mut self, eff: EffectId)
        ensures
            final(self).subscribers@ == remove_all(old(self).subscribers@, eff),
    {
        let mut kept: Vec<EffectId> = Vec::new();
        let mut i: usize = 0;
        while i < self.subscribers.len()
            invariant
                i <= self.subscribers.len(),
                kept@ == remove_all(self.subscribers@.take(i as int), eff),
            decreases self.subscribers.len() - i,
        {
            let s = self.subscribers[i];
            assert(self.subscribers@.take(i + 1).drop_last() == self.subscribers@.take(i as int));
            if s.index != eff.index {
                kept.push(s);
            }
            i = i + 1;
        }
        assert(self.subscribers@.take(self.subscribers.len() as int) == self.subscribers@);
        self.subscribers = kept;
    }

    /// Keeps only the subscribers that `keep` keeps.
    pub fn retain_kept(&mut self, keep: &Vec<bool>)
        ensures
            final(self).subscribers@ == filter_kept(old(self).subscribers@, keep@),
    {
        let mut out: Vec<EffectId> = Vec::new();
        let mut i: usize = 0;
        while i < self.subscribers.len()
            invariant
                i <= self.subscribers.len(),
                out@ == filter_kept(self.subscribers@.take(i as int), keep@),
            decreases self.subscribers.len() - i,
        {
            let s = self.subscribers[i];
            assert(self.subscribers@.take(i + 1).drop_last() == self.subscribers@.take(i as int));
            if s.index >= keep.len() || keep[s.index] {
                out.push(s);
            }
            i = i + 1;
        }
        assert(self.subscribers@.take(self.subscribers.len() as int) == self.subscribers@);
        self.subscribers = out;
    }
}

impl Default for SignalCore {
    fn default() -> (core: SignalCore)
        ensures
            core.subscribers@ == Seq::<EffectId>::empty(),
    {
        SignalCore::new()
    }
}

fn copy_effects(v: &Vec<EffectId>) -> (r: Vec<EffectId>)
    ensures
        r@ == v@,
{
    let mut r: Vec<EffectId> = Vec::new();
    let mut i: usize = 0;
    while i < v.len()
        invariant
            i <= v.len(),
            r@ == v@.take(i as int),
        decreases v.len() - i,
    {
        r.push(v[i]);
        assert(v@.take(i + 1) == v@.take(i as int).push(v@[i as int]));
        i = i + 1;
    }
    assert(v@.take(v.len() as int) == v@);
    r
}

fn contains_effect(v: &Vec<EffectId>, e: EffectId) -> (r: bool)
    ensures
        r == v@.contains(e),
{
    let mut i: usize = 0;
    while i < v.len()
        invariant
            i <= v.len(),
            forall|k: int| 0 <= k < i ==> v@[k] != e,
        decreases v.len() - i,
    {
        if v[i].index == e.index {
            return true;
        }
        i = i + 1;
    }
    false
}

/// Values and dependency bookkeeping of a set of signals.
pub struct SignalStore<V> {
    values: Vec<V>,
    cores: Vec<SignalCore>,
    running: Option<EffectId>,
    pending: Vec<EffectId>,
}

impl<V> SignalStore<V> {
    #[verifier::type_invariant]
    spec fn well_formed(self) -> bool {
        &&& self.values@.len() == self.cores@.len()
        &&& forall|i: int|
            0 <= i < self.cores@.len() ==> #[trigger] self.cores@[i].subscribers@.no_duplicates()
        &&& self.pending@.no_duplicates()
    }

    /// Number of signals in the store.
    pub closed spec fn len(self) -> nat {
        self.values@.len()
    }

    /// The values of the signals, in order of creation.
    pub closed spec fn values(self) -> Seq<V> {
        self.values@
    }

    /// The values are those of the signals, one per signal.
    pub proof fn lemma_values(self)
        ensures
            self.values().len() == self.len(),
            forall|s: Signal| self.holds(s) ==> #[trigger] self.value(s) == self.values()[s.id() as int],
    {
    }

    /// Every subscription of `self` is still in place in `later`, which
    /// holds every signal of `self`.
    pub open spec fn keeps_subscriptions(self, later: SignalStore<V>) -> bool {
        &&& later.len() >= self.len()
        &&& forall|t: Signal, x: EffectId|
            self.holds(t) && #[trigger] self.subscribers(t).contains(x) ==> #[trigger] later.subscribers(t).contains(x)
    }

    /// Keeping subscriptions composes over consecutive steps.
    pub proof fn lemma_keeps_subscriptions_trans(self, b: SignalStore<V>, c: SignalStore<V>)
        requires
            self.keeps_subscriptions(b),
            b.keeps_subscriptions(c),
        ensures
            self.keeps_subscriptions(c),
    {
        assert forall|t: Signal, x: EffectId|
            self.holds(t) && #[trigger] self.subscribers(t).contains(x) implies #[trigger] c.subscribers(t).contains(x) by {
            assert(b.holds(t));
            assert(b.subscribers(t).contains(x));
        }
    }

    /// A step that keeps each subscriber list or tracks one effect on it
    /// keeps every subscription.
    pub proof fn lemma_tracking_keeps_subscriptions(self, b: SignalStore<V>, running: Option<EffectId>)
        requires
            b.len() >= self.len(),
            forall|t: Signal|
                self.holds(t) ==> #[trigger] b.subscribers(t) == self.subscribers(t)
                    || b.subscribers(t) == track(self.subscribers(t), running),
        ensures
            self.keeps_subscriptions(b),
    {
        assert forall|t: Signal, x: EffectId|
            self.holds(t) && #[trigger] self.subscribers(t).contains(x) implies #[trigger] b.subscribers(t).contains(x) by {
            if b.subscribers(t) != self.subscribers(t) {
                let k = choose|k: int| 0 <= k < self.subscribers(t).len() && self.subscribers(t)[k] == x;
                match running {
                    Some(e) => {
                        if !self.subscribers(t).contains(e) {
                            assert(self.subscribers(t).push(e)[k] == x);
                        }
                    },
                    None => {},
                }
            }
        }
    }

    /// Whether `s` names a signal of this store.
    pub open spec fn holds(self, s: Signal) -> bool {
        s.id() < self.len()
    }

    /// The current value of `s`.
    pub closed spec fn value(self, s: Signal) -> V {
        self.values@[s.id() as int]
    }

    /// The effects subscribed to `s`, in subscription order.
    pub closed spec fn subscribers(self, s: Signal) -> Seq<EffectId> {
        self.cores@[s.id() as int].subscribers@
    }

    /// The effect whose reads are being tracked, if any.
    pub closed spec fn running(self) -> Option<EffectId> {
        self.running
    }

    /// Effects waiting to re-run, in order.
    pub closed spec fn pending(self) -> Seq<EffectId> {
        self.pending@
    }

    /// An empty store.
    pub fn new() -> (store: Self)
        ensures
            store.len() == 0,
            store.running() == None::<EffectId>,
            store.pending() == Seq::<EffectId>::empty(),
    {
        SignalStore { values: Vec::new(), cores: Vec::new(), running: None, pending: Vec::new() }
    }

    /// Number of signals in the store.
    pub fn signal_count(&self) -> (n: usize)
        ensures
            n == self.len(),
    {
        proof {
            use_type_invariant(self);
        }
        self.values.len()
    }

    /// Add a signal holding `value`; it has no subscribers yet.
    pub fn create_signal(&mut self, value: V) -> (s: Signal)
        ensures
            s.id() == old(self).len(),
            final(self).len() == old(self).len() + 1,
            final(self).value(s) == value,
            final(self).subscribers(s) == Seq::<EffectId>::empty(),
            forall|t: Signal|
                old(self).holds(t) ==> final(self).value(t) == old(self).value(t)
                    && final(self).subscribers(t) == old(self).subscribers(t),
            final(self).running() == old(self).running(),
            final(self).pending() == old(self).pending(),
            final(self).values() == old(self).values().push(value),
    {
        let mut tmp = SignalStore::new();
        std::mem::swap(self, &mut tmp);
        proof {
            use_type_invariant(&tmp);
        }
        let SignalStore { mut values, mut cores, running, pending } = tmp;
        let index = values.len();
        values.push(value);
        cores.push(SignalCore::new());
        let s = Signal { index };
        assert forall|i: int|
            0 <= i < cores@.len() implies #[trigger] cores@[i].subscribers@.no_duplicates() by {
            if i < index {
                assert(cores@[i] == old(self).cores@[i]);
            } else {
                assert(cores@[i].subscribers@ == Seq::<EffectId>::empty());
            }
        }
        *self = SignalStore { values, cores, running, pending };
        s
    }

    /// The current value of `s`, without subscribing anything to it.
    pub fn get_untracked(&self, s: Signal) -> (r: &V)
        requires
            self.holds(s),
        ensures
            *r == self.value(s),
    {
        &self.values[s.index]
    }

    /// Read `s`, subscribing the running effect (if any, and once) to it.
    pub fn get(&mut self, s: Signal) -> (r: V) where V: Clone
        requires
            old(self).holds(s),
        ensures
            cloned(old(self).value(s), r),
            final(self).len() == old(self).len(),
            forall|t: Signal| old(self).holds(t) ==> final(self).value(t) == old(self).value(t),
            final(self).subscribers(s) == track(old(self).subscribers(s), old(self).running()),
            final(self).subscribers(s).no_duplicates(),
            forall|t: Signal|
                old(self).holds(t) && t != s ==> final(self).subscribers(t) == old(self).subscribers(t),
            final(self).running() == old(self).running(),
            final(self).pending() == old(self).pending(),
    {
        proof {
            use_type_invariant(&*self);
        }
        if let Some(e) = self.running {
            let i = s.index;
            if !contains_effect(&self.cores[i].subscribers, e) {
                let mut subs = copy_effects(&self.cores[i].subscribers);
                subs.push(e);
                let mut tmp = SignalStore::new();
                std::mem::swap(self, &mut tmp);
                let SignalStore { values, mut cores, running, pending } = tmp;
                cores.set(i, SignalCore { subscribers: subs });
                assert forall|j: int|
                    0 <= j < cores@.len() implies #[trigger] cores@[j].subscribers@.no_duplicates() by {
                    if j != i {
                        assert(cores@[j] == old(self).cores@[j]);
                    } else {
                        let o = old(self).cores@[j].subscribers@;
                        assert(o.no_duplicates());
                        assert(!o.contains(e));
                    }
                }
                *self = SignalStore { values, cores, running, pending };
            }
        }
        self.values[s.index].clone()
    }

    /// Store `value` in `s` and queue every subscriber of `s` that is not
    /// already queued, in subscription order.
    pub fn set(&mut self, s: Signal, value: V)
        requires
            old(self).holds(s),
        ensures
            final(self).len() == old(self).len(),
            final(self).value(s) == value,
            forall|t: Signal|
                old(self).holds(t) && t != s ==> final(self).value(t) == old(self).value(t),
            forall|t: Signal|
                old(self).holds(t) ==> final(self).subscribers(t) == old(self).subscribers(t),
            final(self).pending() == enqueue_all(old(self).pending(), old(self).subscribers(s)),
            final(self).running() == old(self).running(),
            final(self).values() == old(self).values().update(s.id() as int, value),
    {
        proof {
            use_type_invariant(&*self);
        }
        let mut tmp = SignalStore::new();
        std::mem::swap(self, &mut tmp);
        let SignalStore { mut values, cores, running, mut pending } = tmp;
        values.set(s.index, value);
        let i = s.index;
        let mut k: usize = 0;
        let n = cores[i].subscribers.len();
        let ghost subs = cores@[i as int].subscribers@;
        while k < n
            invariant
                k <= n,
                n == subs.len(),
                i < cores@.len(),
                cores@ == old(self).cores@,
                subs == cores@[i as int].subscribers@,
                pending@ == enqueue_all(old(self).pending@, subs.take(k as int)),
                pending@.no_duplicates(),
            decreases n - k,
        {
            let e = cores[i].subscribers[k];
            assert(subs.take(k + 1).drop_last() == subs.take(k as int));
            assert(subs.take(k + 1).last() == e);
            if !contains_effect(&pending, e) {
                pending.push(e);
            }
            k = k + 1;
        }
        *self = SignalStore { values, cores, running, pending };
        assert(subs.take(n as int) == subs);
    }

    /// Replace the value of `s` by `f` applied to (a clone of) it, then queue
    /// its subscribers as `set` does.
    pub fn update<F: FnOnce(V) -> V>(&mut self, s: Signal, f: F) where V: Clone
        requires
            old(self).holds(s),
            forall|v: V| call_requires(f, (v,)),
        ensures
            exists|c: V|
                cloned(old(self).value(s), c) && call_ensures(f, (c,), final(self).value(s)),
            final(self).len() == old(self).len(),
            forall|t: Signal|
                old(self).holds(t) && t != s ==> final(self).value(t) == old(self).value(t),
            forall|t: Signal|
                old(self).holds(t) ==> final(self).subscribers(t) == old(self).subscribers(t),
            final(self).pending() == enqueue_all(old(self).pending(), old(self).subscribers(s)),
            final(self).running() == old(self).running(),
    {
        let current = self.values[s.index].clone();
        assert(cloned(old(self).value(s), current));
        let next = f(current);
        self.set(s, next);
        assert(cloned(old(self).value(s), current) && call_ensures(f, (current,), self.value(s)));
    }

    /// The bookkeeping of `s`.
    pub fn signal_core(&self, s: Signal) -> (c: &SignalCore)
        requires
            self.holds(s),
        ensures
            c.subscribers@ == self.subscribers(s),
    {
        proof {
            use_type_invariant(self);
        }
        &self.cores[s.index]
    }

    /// The effect whose reads are being tracked, if any.
    pub fn current_effect(&self) -> (r: Option<EffectId>)
        ensures
            r == self.running(),
    {
        self.running
    }

    /// Make `running` the effect whose reads are tracked.
    pub(crate) fn set_running(&mut self, running: Option<EffectId>)
        ensures
            final(self).running() == running,
            final(self).len() == old(self).len(),
            final(self).values() == old(self).values(),
            forall|t: Signal|
                old(self).holds(t) ==> final(self).value(t) == old(self).value(t)
                    && final(self).subscribers(t) == old(self).subscribers(t),
            final(self).pending() == old(self).pending(),
    {
        proof {
            use_type_invariant(&*self);
        }
        self.running = running;
    }

    /// Take the first queued effect, if any.
    pub(crate) fn pop_pending(&mut self) -> (r: Option<EffectId>)
        ensures
            old(self).pending().len() == 0 ==> r == None::<EffectId> && *final(self) == *old(self),
            old(self).pending().len() > 0 ==> r == Some(old(self).pending()[0])
                && final(self).pending() == old(self).pending().drop_first(),
            final(self).len() == old(self).len(),
            forall|t: Signal|
                old(self).holds(t) ==> final(self).value(t) == old(self).value(t)
                    && final(self).subscribers(t) == old(self).subscribers(t),
            final(self).running() == old(self).running(),
    {
        proof {
            use_type_invariant(&*self);
        }
        if self.pending.len() == 0 {
            None
        } else {
            let mut tmp = SignalStore::new();
            std::mem::swap(self, &mut tmp);
            let SignalStore { values, cores, running, mut pending } = tmp;
            let e = pending.remove(0);
            assert(pending@ == old(self).pending@.drop_first());
            assert forall|a: int, b: int|
                0 <= a < b < pending@.len() implies pending@[a] != pending@[b] by {
                assert(pending@[a] == old(self).pending@[a + 1]);
                assert(pending@[b] == old(self).pending@[b + 1]);
            }
            *self = SignalStore { values, cores, running, pending };
            Some(e)
        }
    }

    /// Unsubscribe an effect from every signal of the store.
    pub(crate) fn unsubscribe_effect_from_all(&mut self, effect: EffectId)
        ensures
            final(self).len() == old(self).len(),
            forall|t: Signal|
                old(self).holds(t) ==> final(self).value(t) == old(self).value(t)
                    && final(self).subscribers(t) == remove_all(old(self).subscribers(t), effect),
            final(self).running() == old(self).running(),
            final(self).pending() == old(self).pending(),
    {
        proof {
            use_type_invariant(&*self);
        }
        let mut tmp = SignalStore::new();
        std::mem::swap(self, &mut tmp);
        let SignalStore { values, mut cores, running, pending } = tmp;
        let n = cores.len();
        let mut i: usize = 0;
        while i < n
            invariant
                i <= n,
                n == cores@.len(),
                values@ == old(self).values@,
                running == old(self).running,
                pending@ == old(self).pending@,
                pending@.no_duplicates(),
                forall|j: int|
                    0 <= j < i ==> #[trigger] cores@[j].subscribers@ == remove_all(
                        old(self).cores@[j].subscribers@,
                        effect,
                    ),
                forall|j: int| i <= j < n ==> #[trigger] cores@[j] == old(self).cores@[j],
                forall|j: int|
                    0 <= j < n ==> #[trigger] cores@[j].subscribers@.no_duplicates(),
            decreases n - i,
        {
            let mut core = SignalCore { subscribers: copy_effects(&cores[i].subscribers) };
            let ghost before = core.subscribers@;
            core.remove_subscriber(effect);
            proof {
                lemma_remove_all(before, effect);
            }
            cores.set(i, core);
            i = i + 1;
        }
        *self = SignalStore { values, cores, running, pending };
    }

    /// Keep, in every subscriber list and in the queue, only the effects
    /// that `keep` keeps.
    pub(crate) fn retain_effects(&mut self, keep: &Vec<bool>)
        ensures
            final(self).len() == old(self).len(),
            forall|t: Signal|
                old(self).holds(t) ==> final(self).value(t) == old(self).value(t)
                    && final(self).subscribers(t) == filter_kept(
                    old(self).subscribers(t),
                    keep@,
                ),
            final(self).running() == old(self).running(),
            final(self).pending() == filter_kept(old(self).pending(), keep@),
    {
        proof {
            use_type_invariant(&*self);
        }
        let mut tmp = SignalStore::new();
        std::mem::swap(self, &mut tmp);
        let SignalStore { values, mut cores, running, pending } = tmp;
        let n = cores.len();
        let mut i: usize = 0;
        while i < n
            invariant
                i <= n,
                n == cores@.len(),
                values@ == old(self).values@,
                running == old(self).running,
                pending@ == old(self).pending@,
                pending@.no_duplicates(),
                forall|j: int|
                    0 <= j < i ==> #[trigger] cores@[j].subscribers@ == filter_kept(
                        old(self).cores@[j].subscribers@,
                        keep@,
                    ),
                forall|j: int| i <= j < n ==> #[trigger] cores@[j] == old(self).cores@[j],
                forall|j: int|
                    0 <= j < n ==> #[trigger] cores@[j].subscribers@.no_duplicates(),
            decreases n - i,
        {
            let mut core = SignalCore { subscribers: copy_effects(&cores[i].subscribers) };
            let ghost before = core.subscribers@;
            core.retain_kept(keep);
            proof {
                lemma_filter_kept(before, keep@);
            }
            cores.set(i, core);
            i = i + 1;
        }
        let mut queue = SignalCore { subscribers: pending };
        let ghost before = queue.subscribers@;
        queue.retain_kept(keep);
        proof {
            lemma_filter_kept(before, keep@);
        }
        *self = SignalStore { values, cores, running, pending: queue.subscribers };
    }
}

} // verus!
