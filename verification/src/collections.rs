//! Hash tables and hash sets keyed by raw node ids.
//!
//! Each type here holds one `hashbrown` collection in a private field. What it contains is named
//! by a specification function, and the methods below say over that name what the collection's
//! own methods do. The order in which a hash table is walked is left open throughout: a walk is
//! described by the set of keys it visits, each exactly once.
use hashbrown::{HashMap, HashSet};
use vstd::prelude::*;

use crate::graph::NodeMeta;
use crate::observers::{HookState, Observer};

verus! {

/// A set of raw node ids.
#[verifier::external_body]
pub struct IdSet {
    inner: HashSet<u64>,
}

/// The members of an [`IdSet`].
pub uninterp spec fn id_set_members(set: IdSet) -> Set<u64>;

impl View for IdSet {
    type V = Set<u64>;

    open spec fn view(&self) -> Set<u64> {
        id_set_members(*self)
    }
}

impl IdSet {
    /// `hashbrown::HashSet::new`: the set starts empty.
    #[verifier::external_body]
    pub(crate) fn new() -> (set: Self)
        ensures
            (id_set_members(set) == Set::<u64>::empty()),
    {
        Self { inner: HashSet::new() }
    }

    /// `hashbrown::HashSet::insert`: adds the value, and tells whether it was absent before.
    #[verifier::external_body]
    pub(crate) fn insert(&mut self, value: u64) -> (added: bool)
        ensures
            id_set_members(*final(self)) == id_set_members(*old(self)).insert(value),
            added == !id_set_members(*old(self)).contains(value),
    {
        self.inner.insert(value)
    }

    /// `hashbrown::HashSet::remove`: takes the value out, and tells whether it was present.
    #[verifier::external_body]
    pub(crate) fn remove(&mut self, value: u64) -> (removed: bool)
        ensures
            id_set_members(*final(self)) == id_set_members(*old(self)).remove(value),
            removed == id_set_members(*old(self)).contains(value),
    {
        self.inner.remove(&value)
    }

    /// `hashbrown::HashSet::contains`: tells whether the value is a member.
    #[verifier::external_body]
    pub(crate) fn contains(&self, value: u64) -> (found: bool)
        ensures
            found == id_set_members(*self).contains(value),
    {
        self.inner.contains(&value)
    }

    /// `hashbrown::HashSet::len`: the number of members.
    #[verifier::external_body]
    pub(crate) fn len(&self) -> (count: usize)
        ensures
            count == id_set_members(*self).len(),
    {
        self.inner.len()
    }

    /// `hashbrown::HashSet::is_empty`: tells whether there is no member.
    #[verifier::external_body]
    pub(crate) fn is_empty(&self) -> (empty: bool)
        ensures
            empty == (id_set_members(*self) == Set::<u64>::empty()),
    {
        self.inner.is_empty()
    }

    /// `hashbrown::HashSet::iter`, collected: every member once, in an order left open.
    #[verifier::external_body]
    pub(crate) fn members(&self) -> (ids: Vec<u64>)
        ensures
            ids@.no_duplicates(),
            ids@.to_set() == id_set_members(*self),
    {
        self.inner.iter().copied().collect()
    }
}

/// The versions one observer recorded, by the raw id of the node it read.
#[verifier::external_body]
pub struct VersionMap {
    inner: HashMap<u64, u64>,
}

/// The entries of a [`VersionMap`].
pub uninterp spec fn version_map_entries(map: VersionMap) -> Map<u64, u64>;

impl View for VersionMap {
    type V = Map<u64, u64>;

    open spec fn view(&self) -> Map<u64, u64> {
        version_map_entries(*self)
    }
}

impl VersionMap {
    /// `hashbrown::HashMap::new`: the map starts empty.
    #[verifier::external_body]
    pub(crate) fn new() -> (map: Self)
        ensures
            (version_map_entries(map) == Map::<u64, u64>::empty()),
    {
        Self { inner: HashMap::new() }
    }

    /// `hashbrown::HashMap::insert`: stores the value under the key and returns the one that it
    /// replaced.
    #[verifier::external_body]
    pub(crate) fn insert(&mut self, key: u64, value: u64) -> (previous: Option<u64>)
        ensures
            version_map_entries(*final(self)) == version_map_entries(*old(self)).insert(key, value),
            previous == version_map_entries(*old(self)).get(key),
    {
        self.inner.insert(key, value)
    }

    /// `hashbrown::HashMap::remove`: takes the key out and returns the value it held.
    #[verifier::external_body]
    pub(crate) fn remove(&mut self, key: u64) -> (previous: Option<u64>)
        ensures
            version_map_entries(*final(self)) == version_map_entries(*old(self)).remove(key),
            previous == version_map_entries(*old(self)).get(key),
    {
        self.inner.remove(&key)
    }

    /// `hashbrown::HashMap::get`: the value under the key.
    #[verifier::external_body]
    pub(crate) fn get(&self, key: u64) -> (value: Option<u64>)
        ensures
            value == version_map_entries(*self).get(key),
    {
        self.inner.get(&key).copied()
    }

    /// `hashbrown::HashMap::len`: the number of entries.
    #[verifier::external_body]
    pub(crate) fn len(&self) -> (count: usize)
        ensures
            count == version_map_entries(*self).dom().len(),
    {
        self.inner.len()
    }

    /// `hashbrown::HashMap::is_empty`: tells whether there is no entry.
    #[verifier::external_body]
    pub(crate) fn is_empty(&self) -> (empty: bool)
        ensures
            (empty == (version_map_entries(*self) == Map::<u64, u64>::empty())),
    {
        self.inner.is_empty()
    }

    /// `hashbrown::HashMap::keys`, collected: every key once, in an order left open.
    #[verifier::external_body]
    pub(crate) fn keys(&self) -> (keys: Vec<u64>)
        ensures
            keys@.no_duplicates(),
            keys@.to_set() == version_map_entries(*self).dom(),
    {
        self.inner.keys().copied().collect()
    }
}

/// The recorded dependencies of every observer, by the observer's raw id.
#[verifier::external_body]
pub struct DependencyTable {
    inner: HashMap<u64, VersionMap>,
}

/// The entries of a [`DependencyTable`].
pub uninterp spec fn dependency_table_entries(table: DependencyTable) -> Map<u64, Map<u64, u64>>;

impl View for DependencyTable {
    type V = Map<u64, Map<u64, u64>>;

    open spec fn view(&self) -> Map<u64, Map<u64, u64>> {
        dependency_table_entries(*self)
    }
}

impl DependencyTable {
    /// `hashbrown::HashMap::new`: the table starts empty.
    #[verifier::external_body]
    pub(crate) fn new() -> (table: Self)
        ensures
            (dependency_table_entries(table) == Map::<u64, Map<u64, u64>>::empty()),
    {
        Self { inner: HashMap::new() }
    }

    /// `hashbrown::HashMap::get`: the entry under the key.
    #[verifier::external_body]
    pub(crate) fn get(&self, key: u64) -> (entry: Option<&VersionMap>)
        ensures
            entry is Some <==> dependency_table_entries(*self).contains_key(key),
            entry matches Some(map) ==> map@ == dependency_table_entries(*self)[key],
    {
        self.inner.get(&key)
    }

    /// `hashbrown::HashMap::insert`: stores the entry under the key.
    #[verifier::external_body]
    pub(crate) fn insert(&mut self, key: u64, entry: VersionMap)
        ensures
            dependency_table_entries(*final(self))
                == dependency_table_entries(*old(self)).insert(key, entry@),
    {
        let _ = self.inner.insert(key, entry);
    }

    /// `hashbrown::HashMap::remove`: takes the key out and returns the entry it held.
    #[verifier::external_body]
    pub(crate) fn remove(&mut self, key: u64) -> (entry: Option<VersionMap>)
        ensures
            dependency_table_entries(*final(self))
                == dependency_table_entries(*old(self)).remove(key),
            entry is Some <==> dependency_table_entries(*old(self)).contains_key(key),
            entry matches Some(map) ==> map@ == dependency_table_entries(*old(self))[key],
    {
        self.inner.remove(&key)
    }
}

/// The observers of every node, by the node's raw id.
#[verifier::external_body]
pub struct DependentTable {
    inner: HashMap<u64, IdSet>,
}

/// The entries of a [`DependentTable`].
pub uninterp spec fn dependent_table_entries(table: DependentTable) -> Map<u64, Set<u64>>;

impl View for DependentTable {
    type V = Map<u64, Set<u64>>;

    open spec fn view(&self) -> Map<u64, Set<u64>> {
        dependent_table_entries(*self)
    }
}

impl DependentTable {
    /// `hashbrown::HashMap::new`: the table starts empty.
    #[verifier::external_body]
    pub(crate) fn new() -> (table: Self)
        ensures
            (dependent_table_entries(table) == Map::<u64, Set<u64>>::empty()),
    {
        Self { inner: HashMap::new() }
    }

    /// `hashbrown::HashMap::get`: the entry under the key.
    #[verifier::external_body]
    pub(crate) fn get(&self, key: u64) -> (entry: Option<&IdSet>)
        ensures
            entry is Some <==> dependent_table_entries(*self).contains_key(key),
            entry matches Some(set) ==> set@ == dependent_table_entries(*self)[key],
    {
        self.inner.get(&key)
    }

    /// `hashbrown::HashMap::insert`: stores the entry under the key.
    #[verifier::external_body]
    pub(crate) fn insert(&mut self, key: u64, entry: IdSet)
        ensures
            dependent_table_entries(*final(self))
                == dependent_table_entries(*old(self)).insert(key, entry@),
    {
        let _ = self.inner.insert(key, entry);
    }

    /// `hashbrown::HashMap::remove`: takes the key out and returns the entry it held.
    #[verifier::external_body]
    pub(crate) fn remove(&mut self, key: u64) -> (entry: Option<IdSet>)
        ensures
            dependent_table_entries(*final(self))
                == dependent_table_entries(*old(self)).remove(key),
            entry is Some <==> dependent_table_entries(*old(self)).contains_key(key),
            entry matches Some(set) ==> set@ == dependent_table_entries(*old(self))[key],
    {
        self.inner.remove(&key)
    }
}

/// The metadata of every live node, by the node's raw id.
#[verifier::external_body]
pub struct MetaTable {
    inner: HashMap<u64, NodeMeta>,
}

/// The entries of a [`MetaTable`].
pub uninterp spec fn meta_table_entries(table: MetaTable) -> Map<u64, NodeMeta>;

impl View for MetaTable {
    type V = Map<u64, NodeMeta>;

    open spec fn view(&self) -> Map<u64, NodeMeta> {
        meta_table_entries(*self)
    }
}

impl MetaTable {
    /// `hashbrown::HashMap::new`: the table starts empty.
    #[verifier::external_body]
    pub(crate) fn new() -> (table: Self)
        ensures
            (meta_table_entries(table) == Map::<u64, NodeMeta>::empty()),
    {
        Self { inner: HashMap::new() }
    }

    /// `hashbrown::HashMap::get`: the metadata under the key.
    #[verifier::external_body]
    pub(crate) fn get(&self, key: u64) -> (meta: Option<NodeMeta>)
        ensures
            meta == meta_table_entries(*self).get(key),
    {
        self.inner.get(&key).copied()
    }

    /// `hashbrown::HashMap::insert`: stores the metadata under the key and returns what it
    /// replaced.
    #[verifier::external_body]
    pub(crate) fn insert(&mut self, key: u64, meta: NodeMeta) -> (previous: Option<NodeMeta>)
        ensures
            meta_table_entries(*final(self)) == meta_table_entries(*old(self)).insert(key, meta),
            previous == meta_table_entries(*old(self)).get(key),
    {
        self.inner.insert(key, meta)
    }

    /// `hashbrown::HashMap::remove`: takes the key out and returns the metadata it held.
    #[verifier::external_body]
    pub(crate) fn remove(&mut self, key: u64) -> (meta: Option<NodeMeta>)
        ensures
            meta_table_entries(*final(self)) == meta_table_entries(*old(self)).remove(key),
            meta == meta_table_entries(*old(self)).get(key),
    {
        self.inner.remove(&key)
    }

    /// `hashbrown::HashMap::len`: the number of entries.
    #[verifier::external_body]
    pub(crate) fn len(&self) -> (count: usize)
        ensures
            count == meta_table_entries(*self).dom().len(),
    {
        self.inner.len()
    }
}

/// Every observer that a mark can reach, by its raw node id.
#[verifier::external_body]
pub struct ObserverTable {
    inner: HashMap<u64, Observer>,
}

/// The entries of an [`ObserverTable`].
pub uninterp spec fn observer_table_entries(table: ObserverTable) -> Map<u64, Observer>;

impl View for ObserverTable {
    type V = Map<u64, Observer>;

    open spec fn view(&self) -> Map<u64, Observer> {
        observer_table_entries(*self)
    }
}

impl ObserverTable {
    /// `hashbrown::HashMap::new`: the table starts empty.
    #[verifier::external_body]
    pub(crate) fn new() -> (table: Self)
        ensures
            (observer_table_entries(table) == Map::<u64, Observer>::empty()),
    {
        Self { inner: HashMap::new() }
    }

    /// `hashbrown::HashMap::len`: the number of entries.
    #[verifier::external_body]
    pub(crate) fn len(&self) -> (count: usize)
        ensures
            count == observer_table_entries(*self).dom().len(),
    {
        self.inner.len()
    }

    /// `hashbrown::HashMap::get`: the record under the key.
    #[verifier::external_body]
    pub(crate) fn get(&self, key: u64) -> (found: Option<Observer>)
        ensures
            found == observer_table_entries(*self).get(key),
    {
        self.inner.get(&key).copied()
    }

    /// `hashbrown::HashMap::insert`: stores the record under the key and returns what it replaced.
    #[verifier::external_body]
    pub(crate) fn insert(&mut self, key: u64, record: Observer) -> (previous: Option<Observer>)
        ensures
            observer_table_entries(*final(self))
                == observer_table_entries(*old(self)).insert(key, record),
            previous == observer_table_entries(*old(self)).get(key),
    {
        self.inner.insert(key, record)
    }

    /// `hashbrown::HashMap::remove`: takes the key out and returns the record it held.
    #[verifier::external_body]
    pub(crate) fn remove(&mut self, key: u64) -> (previous: Option<Observer>)
        ensures
            observer_table_entries(*final(self)) == observer_table_entries(*old(self)).remove(key),
            previous == observer_table_entries(*old(self)).get(key),
    {
        self.inner.remove(&key)
    }
}

/// The observation hooks of every node that has some, by its raw node id.
#[verifier::external_body]
pub struct HookTable {
    inner: HashMap<u64, HookState>,
}

/// The entries of a [`HookTable`].
pub uninterp spec fn hook_table_entries(table: HookTable) -> Map<u64, HookState>;

impl View for HookTable {
    type V = Map<u64, HookState>;

    open spec fn view(&self) -> Map<u64, HookState> {
        hook_table_entries(*self)
    }
}

impl HookTable {
    /// `hashbrown::HashMap::new`: the table starts empty.
    #[verifier::external_body]
    pub(crate) fn new() -> (table: Self)
        ensures
            (hook_table_entries(table) == Map::<u64, HookState>::empty()),
    {
        Self { inner: HashMap::new() }
    }

    /// `hashbrown::HashMap::get`: the hooks under the key.
    #[verifier::external_body]
    pub(crate) fn get(&self, key: u64) -> (found: Option<HookState>)
        ensures
            found == hook_table_entries(*self).get(key),
    {
        self.inner.get(&key).copied()
    }

    /// `hashbrown::HashMap::insert`: stores the hooks under the key and returns what it replaced.
    #[verifier::external_body]
    pub(crate) fn insert(&mut self, key: u64, hooks: HookState) -> (previous: Option<HookState>)
        ensures
            hook_table_entries(*final(self)) == hook_table_entries(*old(self)).insert(key, hooks),
            previous == hook_table_entries(*old(self)).get(key),
    {
        self.inner.insert(key, hooks)
    }

    /// `hashbrown::HashMap::remove`: takes the key out and returns the hooks it held.
    #[verifier::external_body]
    pub(crate) fn remove(&mut self, key: u64) -> (previous: Option<HookState>)
        ensures
            hook_table_entries(*final(self)) == hook_table_entries(*old(self)).remove(key),
            previous == hook_table_entries(*old(self)).get(key),
    {
        self.inner.remove(&key)
    }
}

} // verus!
