//! The plugin registry: a concurrent-safe map from plugin identity to the
//! arena slot of that plugin's root node, together with the process-wide
//! counter that hands every scope and root node its numeric id.
//!
//! Lookup and insertion are combined by the callers in `context` under one
//! exclusive borrow, so the check-then-insert of an activation is one atomic
//! step of the model: two first activations of the same identity cannot both
//! register a root.

use vstd::prelude::*;

verus! {

/// The process-wide id counter.  Ids start at 1 and are handed out in
/// strictly increasing order, so no two fetches ever return the same id.
pub struct Counter {
    counter: usize,
}

impl Counter {
    /// The id the next fetch will return.
    pub closed spec fn spec_value(self) -> usize {
        self.counter
    }

    /// What one fetch does: it returns the current value and moves past it.
    pub open spec fn fetch_transition(pre: Counter, post: Counter, id: usize) -> bool {
        &&& id == pre.spec_value()
        &&& post.spec_value() == pre.spec_value() + 1
    }

    /// A counter whose first id is 1.
    pub fn new() -> (c: Counter)
        ensures
            c.spec_value() == 1,
    {
        Counter { counter: 1 }
    }

    /// The id the next fetch will return.
    pub fn value(&self) -> (v: usize)
        ensures
            v == self.spec_value(),
    {
        self.counter
    }

    /// Returns the next id and advances the counter.
    pub fn fetch(&mut self) -> (id: usize)
        requires
            old(self).spec_value() < usize::MAX,
        ensures
            Self::fetch_transition(*old(self), *final(self), id),
            id == old(self).spec_value(),
            final(self).spec_value() == old(self).spec_value() + 1,
    {
        let id = self.counter;
        self.counter = self.counter + 1;
        id
    }
}

impl Default for Counter {
    /// Same as [`Counter::new`]: counting starts at 1.
    fn default() -> (c: Counter)
        ensures
            c.spec_value() == 1,
    {
        Counter::new()
    }
}

/// Law: ids fetched from the same counter are strictly increasing, and in
/// particular no id is ever handed out twice.
pub proof fn lemma_fetched_ids_increase(
    c0: Counter,
    c1: Counter,
    c2: Counter,
    id1: usize,
    id2: usize,
)
    requires
        Counter::fetch_transition(c0, c1, id1),
        Counter::fetch_transition(c1, c2, id2),
    ensures
        id2 > id1,
{
}

#[verifier::external_type_specification]
#[verifier::external_body]
#[verifier::reject_recursive_types(K)]
#[verifier::reject_recursive_types(V)]
#[verifier::reject_recursive_types(S)]
pub struct ExDashMap<K, V, S>(dashmap::DashMap<K, V, S>);

/// The entries held in `m`: plugin identity to the arena slot of its root
/// node.
pub uninterp spec fn map_entries(m: dashmap::DashMap<u128, usize>) -> Map<u128, usize>;

/// No identity is registered in `m`.
pub open spec fn entries_empty(m: Map<u128, usize>) -> bool {
    m == Map::<u128, usize>::empty()
}

/// Relies on dashmap::DashMap::new: a fresh map holds no entries.
#[verifier::external_body]
fn map_new() -> (m: dashmap::DashMap<u128, usize>)
    ensures
        entries_empty(map_entries(m)),
{
    dashmap::DashMap::new()
}

/// Relies on dashmap::DashMap::get: the value stored under the key, if any.
#[verifier::external_body]
fn map_get(m: &dashmap::DashMap<u128, usize>, k: u128) -> (r: Option<usize>)
    ensures
        r == if map_entries(*m).contains_key(k) {
            Some(map_entries(*m)[k])
        } else {
            None::<usize>
        },
{
    m.get(&k).map(|v| *v)
}

/// Relies on dashmap::DashMap::insert: stores the value under the key and
/// returns the value it displaced, if any.
#[verifier::external_body]
fn map_insert(m: &mut dashmap::DashMap<u128, usize>, k: u128, v: usize) -> (r: Option<usize>)
    ensures
        map_entries(*final(m)) == map_entries(*old(m)).insert(k, v),
        r == if map_entries(*old(m)).contains_key(k) {
            Some(map_entries(*old(m))[k])
        } else {
            None::<usize>
        },
{
    m.insert(k, v)
}

/// Relies on dashmap::DashMap::remove: takes the entry under the key out of
/// the map and returns its value, if there was one.
#[verifier::external_body]
fn map_remove(m: &mut dashmap::DashMap<u128, usize>, k: u128) -> (r: Option<usize>)
    ensures
        map_entries(*final(m)) == map_entries(*old(m)).remove(k),
        r == if map_entries(*old(m)).contains_key(k) {
            Some(map_entries(*old(m))[k])
        } else {
            None::<usize>
        },
{
    m.remove(&k).map(|(_, v)| v)
}

/// The registry: the identity map plus the id counter.
pub struct Registry {
    pub(crate) counter: Counter,
    pub(crate) entries: dashmap::DashMap<u128, usize>,
}

impl Registry {
    /// The registered plugin identities and their root slots.
    pub closed spec fn spec_entries(self) -> Map<u128, usize> {
        map_entries(self.entries)
    }

    /// The id the next activation will receive.
    pub closed spec fn spec_counter(self) -> usize {
        self.counter.spec_value()
    }

    /// An empty registry whose counter starts at 1.
    pub fn new() -> (r: Registry)
        ensures
            entries_empty(r.spec_entries()),
            r.spec_counter() == 1,
    {
        Registry { counter: Counter::new(), entries: map_new() }
    }

    /// Looks up the root slot registered for a plugin identity.
    pub fn get(&self, identifier: u128) -> (r: Option<usize>)
        ensures
            r == if self.spec_entries().contains_key(identifier) {
                Some(self.spec_entries()[identifier])
            } else {
                None::<usize>
            },
    {
        map_get(&self.entries, identifier)
    }

    /// Registers a root slot for a plugin identity.
    pub(crate) fn set(&mut self, identifier: u128, slot: usize)
        ensures
            final(self).spec_entries() == old(self).spec_entries().insert(identifier, slot),
            final(self).spec_counter() == old(self).spec_counter(),
    {
        let _ = map_insert(&mut self.entries, identifier, slot);
    }

    /// Unregisters a plugin identity, returning the root slot that was
    /// registered under it, if any.
    pub(crate) fn remove(&mut self, identifier: u128) -> (r: Option<usize>)
        ensures
            final(self).spec_entries() == old(self).spec_entries().remove(identifier),
            final(self).spec_counter() == old(self).spec_counter(),
            r == if old(self).spec_entries().contains_key(identifier) {
                Some(old(self).spec_entries()[identifier])
            } else {
                None::<usize>
            },
    {
        map_remove(&mut self.entries, identifier)
    }

    /// The id the next activation will receive.
    pub fn counter_value(&self) -> (v: usize)
        ensures
            v == self.spec_counter(),
    {
        self.counter.value()
    }

    /// Hands out the next numeric id.
    pub(crate) fn next_id(&mut self) -> (id: usize)
        requires
            old(self).spec_counter() < usize::MAX,
        ensures
            id == old(self).spec_counter(),
            final(self).spec_counter() == old(self).spec_counter() + 1,
            final(self).spec_entries() == old(self).spec_entries(),
    {
        self.counter.fetch()
    }
}

} // verus!
