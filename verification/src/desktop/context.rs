//! Context storage for desktop applications: at most one value per type.
//!
//! A registry maps type identifiers to values. A registry of values of type
//! `V` records `TypeId::of::<V>()` when it is made, and the typed functions
//! key each value by that identifier, so providing a second value of the
//! type replaces the first.
use vstd::prelude::*;
use std::any::TypeId;

verus! {

#[verifier::external_type_specification]
#[verifier::external_body]
pub struct ExTypeId(TypeId);

/// `TypeId::of::<T>()`. The identifier depends on `T` alone; it cannot be
/// named here because a name for it would need the type parameter, so the
/// contract leaves the returned identifier open. A registry calls it once,
/// when it is made, and keeps the result.
#[verifier::external_body]
fn type_key<T: 'static>() -> TypeId {
    TypeId::of::<T>()
}

/// `TypeId == TypeId`: equal exactly when the identifiers are the same value.
#[verifier::external_body]
fn same_key(a: &TypeId, b: &TypeId) -> (r: bool)
    ensures
        r == (*a == *b),
{
    *a == *b
}

/// Values keyed by type identifier, at most one per key.
pub struct ContextRegistry<V> {
    own: TypeId,
    keys: Vec<TypeId>,
    values: Vec<V>,
}

impl<V> ContextRegistry<V> {
    /// Keys and values pair up, and no key occurs twice.
    pub closed spec fn wf(self) -> bool {
        &&& self.keys@.len() == self.values@.len()
        &&& self.keys@.no_duplicates()
    }

    /// The registry as a map from key to value.
    pub closed spec fn view(self) -> Map<TypeId, V> {
        Map::new(
            |k: TypeId| self.keys@.contains(k),
            |k: TypeId| self.values@[self.keys@.index_of(k)],
        )
    }

    /// The identifier of the registry's value type, under which the typed
    /// functions store its value.
    pub closed spec fn own_key(self) -> TypeId {
        self.own
    }

    /// An empty registry for values of type `V`.
    pub fn new() -> (r: Self)
        where V: 'static,
        ensures
            r.wf(),
            r.view() == Map::<TypeId, V>::empty(),
    {
        let r = ContextRegistry { own: type_key::<V>(), keys: Vec::new(), values: Vec::new() };
        assert(r.view() =~= Map::<TypeId, V>::empty());
        r
    }

    fn position(&self, key: &TypeId) -> (r: Option<usize>)
        requires
            self.wf(),
        ensures
            r.is_none() <==> !self.keys@.contains(*key),
            r.is_some() ==> r.unwrap() < self.keys@.len() && self.keys@[r.unwrap() as int]
                == *key && self.keys@.index_of(*key) == r.unwrap(),
    {
        let mut i: usize = 0;
        while i < self.keys.len()
            invariant
                self.wf(),
                i <= self.keys.len(),
                forall|k: int| 0 <= k < i ==> self.keys@[k] != *key,
            decreases self.keys.len() - i,
        {
            if same_key(&self.keys[i], key) {
                proof {
                    assert(self.keys@.contains(*key));
                    let j = self.keys@.index_of(*key);
                    assert(self.keys@[j] == *key);
                }
                return Some(i);
            }
            i = i + 1;
        }
        None
    }

    /// Whether a value is stored under `key`.
    pub fn contains_key(&self, key: &TypeId) -> (r: bool)
        requires
            self.wf(),
        ensures
            r == self.view().contains_key(*key),
    {
        self.position(key).is_some()
    }

    /// The value stored under `key`, if any.
    pub fn get(&self, key: &TypeId) -> (r: Option<&V>)
        requires
            self.wf(),
        ensures
            r.is_some() == self.view().contains_key(*key),
            r.is_some() ==> *r.unwrap() == self.view()[*key],
    {
        match self.position(key) {
            Some(i) => Some(&self.values[i]),
            None => None,
        }
    }

    /// The identifier of the registry's value type.
    pub fn key(&self) -> (k: TypeId)
        ensures
            k == self.own_key(),
    {
        self.own
    }

    /// Store `value` under `key`, replacing any value stored there.
    pub fn insert(&mut self, key: TypeId, value: V)
        requires
            old(self).wf(),
        ensures
            final(self).wf(),
            final(self).view() == old(self).view().insert(key, value),
            final(self).own_key() == old(self).own_key(),
    {
        match self.position(&key) {
            Some(i) => {
                self.values.set(i, value);
                assert(self.view() =~= old(self).view().insert(key, value)) by {
                    assert forall|k: TypeId| #[trigger] self.keys@.contains(k) <==> old(self).view().insert(key, value).contains_key(k) by {
                        assert(self.keys@[i as int] == key);
                    }
                    assert forall|k: TypeId| #[trigger] self.keys@.contains(k) implies self.values@[self.keys@.index_of(k)] == old(self).view().insert(key, value)[k] by {
                        let j = self.keys@.index_of(k);
                        assert(self.keys@[j] == k);
                        assert(old(self).keys@.contains(k));
                        assert(old(self).keys@.index_of(k) == j);
                    }
                }
            },
            None => {
                self.keys.push(key);
                self.values.push(value);
                assert(self.view() =~= old(self).view().insert(key, value)) by {
                    assert forall|k: TypeId| #[trigger] self.keys@.contains(k) <==> old(self).view().insert(key, value).contains_key(k) by {
                        let n = old(self).keys@.len() as int;
                        assert(self.keys@[n] == key);
                        if old(self).keys@.contains(k) {
                            let j = choose|j: int| 0 <= j < n && old(self).keys@[j] == k;
                            assert(self.keys@[j] == k);
                        }
                        if self.keys@.contains(k) && k != key {
                            let j = choose|j: int| 0 <= j < n + 1 && self.keys@[j] == k;
                            assert(old(self).keys@[j] == k);
                        }
                    }
                    assert forall|k: TypeId| #[trigger] self.keys@.contains(k) implies self.values@[self.keys@.index_of(k)] == old(self).view().insert(key, value)[k] by {
                        let n = old(self).keys@.len() as int;
                        let j = self.keys@.index_of(k);
                        assert(self.keys@[j] == k);
                        if k != key {
                            assert(j < n);
                            assert(old(self).keys@[j] == k);
                            assert(old(self).keys@.contains(k));
                            let oj = old(self).keys@.index_of(k);
                            assert(old(self).keys@[oj] == k);
                            assert(self.keys@[oj] == k);
                            assert(oj == j);
                        } else {
                            assert(self.keys@[n] == key);
                            assert(j == n);
                        }
                    }
                }
            },
        }
    }

    /// Remove and return the value stored under `key`, if any.
    pub fn remove(&mut self, key: &TypeId) -> (r: Option<V>)
        requires
            old(self).wf(),
        ensures
            final(self).wf(),
            r.is_some() == old(self).view().contains_key(*key),
            r.is_some() ==> r.unwrap() == old(self).view()[*key],
            final(self).view() == old(self).view().remove(*key),
            final(self).own_key() == old(self).own_key(),
    {
        match self.position(key) {
            Some(i) => {
                let _k = self.keys.remove(i);
                let v = self.values.remove(i);
                assert(self.view() =~= old(self).view().remove(*key)) by {
                    assert forall|k: TypeId| #[trigger] self.keys@.contains(k) <==> old(self).view().remove(*key).contains_key(k) by {
                        if self.keys@.contains(k) {
                            let j = choose|j: int| 0 <= j < self.keys@.len() && self.keys@[j] == k;
                            if j < i {
                                assert(old(self).keys@[j] == k);
                            } else {
                                assert(old(self).keys@[j + 1] == k);
                            }
                        }
                        if old(self).keys@.contains(k) && k != *key {
                            let j = choose|j: int| 0 <= j < old(self).keys@.len() && old(self).keys@[j] == k;
                            if j < i {
                                assert(self.keys@[j] == k);
                            } else {
                                assert(self.keys@[j - 1] == k);
                            }
                        }
                    }
                    assert forall|k: TypeId| #[trigger] self.keys@.contains(k) implies self.values@[self.keys@.index_of(k)] == old(self).view()[k] by {
                        let j = self.keys@.index_of(k);
                        assert(self.keys@[j] == k);
                        let oj = if j < i { j } else { j + 1 };
                        assert(old(self).keys@[oj] == k);
                        assert(old(self).keys@.contains(k));
                        let ok = old(self).keys@.index_of(k);
                        assert(old(self).keys@[ok] == k);
                        assert(ok == oj);
                        assert(self.values@[j] == old(self).values@[oj]);
                    }
                }
                assert forall|a: int, b: int|
                    0 <= a < b < self.keys@.len() implies self.keys@[a] != self.keys@[b] by {
                    let oa = if a < i { a } else { a + 1 };
                    let ob = if b < i { b } else { b + 1 };
                    assert(self.keys@[a] == old(self).keys@[oa]);
                    assert(self.keys@[b] == old(self).keys@[ob]);
                }
                Some(v)
            },
            None => {
                assert(self.view() =~= old(self).view().remove(*key));
                None
            },
        }
    }
}

/// Provide a context value of type `T`, replacing any value of that type.
pub fn provide_context<T: 'static>(registry: &mut ContextRegistry<T>, value: T)
    requires
        old(registry).wf(),
    ensures
        final(registry).wf(),
        final(registry).own_key() == old(registry).own_key(),
        final(registry).view() == old(registry).view().insert(old(registry).own_key(), value),
{
    let key = registry.key();
    registry.insert(key, value);
}

/// A clone of the context value of type `T`, or `None` if none was provided.
pub fn use_context<T: 'static + Clone>(registry: &ContextRegistry<T>) -> (r: Option<T>)
    requires
        registry.wf(),
    ensures
        r.is_some() == registry.view().contains_key(registry.own_key()),
        r.is_some() ==> cloned(registry.view()[registry.own_key()], r.unwrap()),
{
    let key = registry.key();
    match registry.get(&key) {
        Some(v) => Some(v.clone()),
        None => None,
    }
}

/// Whether a context value of type `T` is present.
pub fn has_context<T: 'static>(registry: &ContextRegistry<T>) -> (r: bool)
    requires
        registry.wf(),
    ensures
        r == registry.view().contains_key(registry.own_key()),
{
    let key = registry.key();
    registry.contains_key(&key)
}

/// Remove and return the context value of type `T`, if any.
pub fn remove_context<T: 'static>(registry: &mut ContextRegistry<T>) -> (r: Option<T>)
    requires
        old(registry).wf(),
    ensures
        final(registry).wf(),
        final(registry).own_key() == old(registry).own_key(),
        final(registry).view() == old(registry).view().remove(old(registry).own_key()),
        r.is_some() == old(registry).view().contains_key(old(registry).own_key()),
        r.is_some() ==> r.unwrap() == old(registry).view()[old(registry).own_key()],
{
    let key = registry.key();
    registry.remove(&key)
}

} // verus!
