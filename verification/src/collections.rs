//! Hash-based entity collections. Each keeps its `hashbrown` collection in a private
//! field; the named contents below say what the collection holds, and each method states,
//! over those contents, what the corresponding `hashbrown` method does.

use vstd::prelude::*;
use crate::model_definitions::ModelId;
use crate::shadow_flow::ShadowMapIndex;

verus! {

/// A map from entity instances to positions (byte offsets or vector indexes).
#[verifier::external_body]
pub struct EntityIndexMap {
    map: hashbrown::HashMap<u32, usize>,
}

/// What an `EntityIndexMap` holds.
pub uninterp spec fn entity_index_map_contents(m: EntityIndexMap) -> Map<u32, usize>;

impl View for EntityIndexMap {
    type V = Map<u32, usize>;

    open spec fn view(&self) -> Map<u32, usize> {
        entity_index_map_contents(*self)
    }
}

impl EntityIndexMap {
    /// `hashbrown::HashMap::new`: an empty map.
    #[verifier::external_body]
    pub(crate) fn new() -> (r: EntityIndexMap)
        ensures
            entity_index_map_contents(r).dom() == Set::<u32>::empty(),
    {
        EntityIndexMap { map: hashbrown::HashMap::new() }
    }

    /// `hashbrown::HashMap::get`: the value stored for `key`, if any.
    #[verifier::external_body]
    pub(crate) fn get(&self, key: u32) -> (r: Option<usize>)
        ensures
            r == (if entity_index_map_contents(*self).contains_key(key) {
                Some(entity_index_map_contents(*self)[key])
            } else {
                None::<usize>
            }),
    {
        self.map.get(&key).copied()
    }

    /// `hashbrown::HashMap::contains_key`: whether `key` has a value.
    #[verifier::external_body]
    pub(crate) fn contains_key(&self, key: u32) -> (r: bool)
        ensures
            r == entity_index_map_contents(*self).contains_key(key),
    {
        self.map.contains_key(&key)
    }

    /// `hashbrown::HashMap::insert`: stores `value` for `key` and hands back the value it replaced.
    #[verifier::external_body]
    pub(crate) fn insert(&mut self, key: u32, value: usize) -> (r: Option<usize>)
        ensures
            entity_index_map_contents(*final(self)) == entity_index_map_contents(*old(self)).insert(key, value),
            r == (if entity_index_map_contents(*old(self)).contains_key(key) {
                Some(entity_index_map_contents(*old(self))[key])
            } else {
                None::<usize>
            }),
    {
        self.map.insert(key, value)
    }

    /// `hashbrown::HashMap::remove`: removes `key` and hands back its value.
    #[verifier::external_body]
    pub(crate) fn remove(&mut self, key: u32) -> (r: Option<usize>)
        ensures
            entity_index_map_contents(*final(self)) == entity_index_map_contents(*old(self)).remove(key),
            r == (if entity_index_map_contents(*old(self)).contains_key(key) {
                Some(entity_index_map_contents(*old(self))[key])
            } else {
                None::<usize>
            }),
    {
        self.map.remove(&key)
    }

    /// `hashbrown::HashMap::len`: the number of keys.
    #[verifier::external_body]
    pub(crate) fn len(&self) -> (r: usize)
        ensures
            r == entity_index_map_contents(*self).len(),
    {
        self.map.len()
    }

    /// `hashbrown::HashMap::keys`: every key once, in the order the table is walked.
    #[verifier::external_body]
    pub(crate) fn keys(&self) -> (r: Vec<u32>)
        ensures
            r@.no_duplicates(),
            r@.to_set() == entity_index_map_contents(*self).dom(),
    {
        self.map.keys().copied().collect()
    }
}

/// A set of entity instances.
#[verifier::external_body]
pub struct EntitySet {
    set: hashbrown::HashSet<u32>,
}

/// What an `EntitySet` holds.
pub uninterp spec fn entity_set_contents(s: EntitySet) -> Set<u32>;

impl View for EntitySet {
    type V = Set<u32>;

    open spec fn view(&self) -> Set<u32> {
        entity_set_contents(*self)
    }
}

impl EntitySet {
    /// `hashbrown::HashSet::new`: an empty set.
    #[verifier::external_body]
    pub fn new() -> (r: EntitySet)
        ensures
            entity_set_contents(r) == Set::<u32>::empty(),
    {
        EntitySet { set: hashbrown::HashSet::new() }
    }

    /// `hashbrown::HashSet::contains`: membership.
    #[verifier::external_body]
    pub fn contains(&self, value: u32) -> (r: bool)
        ensures
            r == entity_set_contents(*self).contains(value),
    {
        self.set.contains(&value)
    }

    /// `hashbrown::HashSet::insert`: adds `value`; true when it was not there before.
    #[verifier::external_body]
    pub fn insert(&mut self, value: u32) -> (r: bool)
        ensures
            entity_set_contents(*final(self)) == entity_set_contents(*old(self)).insert(value),
            r == !entity_set_contents(*old(self)).contains(value),
    {
        self.set.insert(value)
    }

    /// `hashbrown::HashSet::remove`: removes `value`; true when it was there.
    #[verifier::external_body]
    pub fn remove(&mut self, value: u32) -> (r: bool)
        ensures
            entity_set_contents(*final(self)) == entity_set_contents(*old(self)).remove(value),
            r == entity_set_contents(*old(self)).contains(value),
    {
        self.set.remove(&value)
    }

    /// `hashbrown::HashSet::iter`: every member once, in the order the table is walked.
    #[verifier::external_body]
    pub fn to_vec(&self) -> (r: Vec<u32>)
        ensures
            r@.no_duplicates(),
            r@.to_set() == entity_set_contents(*self),
    {
        self.set.iter().copied().collect()
    }
}

/// A map from 64-bit keys (component type identifiers or entity instances) to entity sets.
#[verifier::external_body]
pub struct EntitySetMap {
    map: hashbrown::HashMap<u64, EntitySet>,
}

/// What an `EntitySetMap` holds.
pub uninterp spec fn entity_set_map_contents(m: EntitySetMap) -> Map<u64, EntitySet>;

impl View for EntitySetMap {
    type V = Map<u64, Set<u32>>;

    open spec fn view(&self) -> Map<u64, Set<u32>> {
        entity_set_map_contents(*self).map_values(|s: EntitySet| s@)
    }
}

impl EntitySetMap {
    /// The sets themselves, by key.
    pub open spec fn sets(&self) -> Map<u64, EntitySet> {
        entity_set_map_contents(*self)
    }

    /// `hashbrown::HashMap::new`: an empty map.
    #[verifier::external_body]
    pub(crate) fn new() -> (r: EntitySetMap)
        ensures
            entity_set_map_contents(r).dom() == Set::<u64>::empty(),
    {
        EntitySetMap { map: hashbrown::HashMap::new() }
    }

    /// `hashbrown::HashMap::get`: the set stored for `key`, if any.
    #[verifier::external_body]
    pub(crate) fn get(&self, key: u64) -> (r: Option<&EntitySet>)
        ensures
            match r {
                Some(s) => entity_set_map_contents(*self).contains_key(key) && *s == entity_set_map_contents(*self)[key],
                None => !entity_set_map_contents(*self).contains_key(key),
            },
    {
        self.map.get(&key)
    }

    /// `hashbrown::HashMap::insert`: stores `value` for `key` and hands back the set it replaced.
    #[verifier::external_body]
    pub(crate) fn insert(&mut self, key: u64, value: EntitySet) -> (r: Option<EntitySet>)
        ensures
            entity_set_map_contents(*final(self)) == entity_set_map_contents(*old(self)).insert(key, value),
            r == (if entity_set_map_contents(*old(self)).contains_key(key) {
                Some(entity_set_map_contents(*old(self))[key])
            } else {
                None::<EntitySet>
            }),
    {
        self.map.insert(key, value)
    }

    /// `hashbrown::HashMap::remove`: removes `key` and hands back its set.
    #[verifier::external_body]
    pub(crate) fn remove(&mut self, key: u64) -> (r: Option<EntitySet>)
        ensures
            entity_set_map_contents(*final(self)) == entity_set_map_contents(*old(self)).remove(key),
            r == (if entity_set_map_contents(*old(self)).contains_key(key) {
                Some(entity_set_map_contents(*old(self))[key])
            } else {
                None::<EntitySet>
            }),
    {
        self.map.remove(&key)
    }
}

/// A map from light entity instances to the shadow map slots they hold.
#[verifier::external_body]
pub struct LightShadowMaps {
    map: hashbrown::HashMap<u32, ShadowMapIndex>,
}

/// What a `LightShadowMaps` holds.
pub uninterp spec fn light_shadow_map_contents(m: LightShadowMaps) -> Map<u32, ShadowMapIndex>;

impl View for LightShadowMaps {
    type V = Map<u32, Seq<Option<usize>>>;

    open spec fn view(&self) -> Map<u32, Seq<Option<usize>>> {
        light_shadow_map_contents(*self).map_values(|v: ShadowMapIndex| v.indexes@)
    }
}

impl LightShadowMaps {
    /// `hashbrown::HashMap::new`: an empty map.
    #[verifier::external_body]
    pub(crate) fn new() -> (r: LightShadowMaps)
        ensures
            light_shadow_map_contents(r).dom() == Set::<u32>::empty(),
    {
        LightShadowMaps { map: hashbrown::HashMap::new() }
    }

    /// `hashbrown::HashMap::get`: a copy of the slots stored for `key`, if any.
    #[verifier::external_body]
    pub(crate) fn get(&self, key: u32) -> (r: Option<ShadowMapIndex>)
        ensures
            r == (if light_shadow_map_contents(*self).contains_key(key) {
                Some(light_shadow_map_contents(*self)[key])
            } else {
                None::<ShadowMapIndex>
            }),
    {
        self.map.get(&key).copied()
    }

    /// `hashbrown::HashMap::contains_key`: whether `key` has slots.
    #[verifier::external_body]
    pub(crate) fn contains_key(&self, key: u32) -> (r: bool)
        ensures
            r == light_shadow_map_contents(*self).contains_key(key),
    {
        self.map.contains_key(&key)
    }

    /// `hashbrown::HashMap::insert`: stores `value` for `key` and hands back the slots it replaced.
    #[verifier::external_body]
    pub(crate) fn insert(&mut self, key: u32, value: ShadowMapIndex) -> (r: Option<ShadowMapIndex>)
        ensures
            light_shadow_map_contents(*final(self)) == light_shadow_map_contents(*old(self)).insert(key, value),
            r == (if light_shadow_map_contents(*old(self)).contains_key(key) {
                Some(light_shadow_map_contents(*old(self))[key])
            } else {
                None::<ShadowMapIndex>
            }),
    {
        self.map.insert(key, value)
    }

    /// `hashbrown::HashMap::remove`: removes `key` and hands back its slots.
    #[verifier::external_body]
    pub(crate) fn remove(&mut self, key: u32) -> (r: Option<ShadowMapIndex>)
        ensures
            light_shadow_map_contents(*final(self)) == light_shadow_map_contents(*old(self)).remove(key),
            r == (if light_shadow_map_contents(*old(self)).contains_key(key) {
                Some(light_shadow_map_contents(*old(self))[key])
            } else {
                None::<ShadowMapIndex>
            }),
    {
        self.map.remove(&key)
    }

    /// `hashbrown::HashMap::keys`: every key once, in the order the table is walked.
    #[verifier::external_body]
    pub(crate) fn keys(&self) -> (r: Vec<u32>)
        ensures
            r@.no_duplicates(),
            r@.to_set() == light_shadow_map_contents(*self).dom(),
    {
        self.map.keys().copied().collect()
    }
}

/// The key under which a model is stored: its model index and render system index.
pub open spec fn model_key(id: ModelId) -> (u32, usize) {
    (id.model_index, id.render_system_index.index)
}

/// A map from models to their instance counts.
#[verifier::external_body]
pub struct ModelCountMap {
    map: hashbrown::HashMap<(u32, usize), u32>,
}

/// What a `ModelCountMap` holds, by model key.
pub uninterp spec fn model_count_map_contents(m: ModelCountMap) -> Map<(u32, usize), u32>;

impl View for ModelCountMap {
    type V = Map<(u32, usize), u32>;

    open spec fn view(&self) -> Map<(u32, usize), u32> {
        model_count_map_contents(*self)
    }
}

impl ModelCountMap {
    /// `hashbrown::HashMap::new`: an empty map.
    #[verifier::external_body]
    pub(crate) fn new() -> (r: ModelCountMap)
        ensures
            model_count_map_contents(r).dom() == Set::<(u32, usize)>::empty(),
    {
        ModelCountMap { map: hashbrown::HashMap::new() }
    }

    /// `hashbrown::HashMap::get`: the count stored for the model, if any.
    #[verifier::external_body]
    pub(crate) fn get(&self, id: ModelId) -> (r: Option<u32>)
        ensures
            r == (if model_count_map_contents(*self).contains_key(model_key(id)) {
                Some(model_count_map_contents(*self)[model_key(id)])
            } else {
                None::<u32>
            }),
    {
        self.map.get(&(id.model_index, id.render_system_index.index)).copied()
    }

    /// `hashbrown::HashMap::insert`: stores `count` for the model.
    #[verifier::external_body]
    pub(crate) fn insert(&mut self, id: ModelId, count: u32)
        ensures
            model_count_map_contents(*final(self)) == model_count_map_contents(*old(self)).insert(model_key(id), count),
    {
        self.map.insert((id.model_index, id.render_system_index.index), count);
    }

    /// `hashbrown::HashMap::remove`: removes the model.
    #[verifier::external_body]
    pub(crate) fn remove(&mut self, id: ModelId)
        ensures
            model_count_map_contents(*final(self)) == model_count_map_contents(*old(self)).remove(model_key(id)),
    {
        self.map.remove(&(id.model_index, id.render_system_index.index));
    }

    /// `hashbrown::HashMap::iter`: every entry once, in the order the table is walked.
    #[verifier::external_body]
    pub(crate) fn entries(&self) -> (r: Vec<((u32, usize), u32)>)
        ensures
            r@.map_values(|e: ((u32, usize), u32)| e.0).no_duplicates(),
            forall|i: int| 0 <= i < r@.len() ==> model_count_map_contents(*self).contains_key(#[trigger] r@[i].0)
                && model_count_map_contents(*self)[r@[i].0] == r@[i].1,
            forall|k: (u32, usize)| #[trigger] model_count_map_contents(*self).contains_key(k) ==> exists|i: int|
                0 <= i < r@.len() && r@[i].0 == k,
    {
        self.map.iter().map(|(k, v)| (*k, *v)).collect()
    }
}

/// A map from model names to model IDs.
#[verifier::external_body]
pub struct ModelNameLookup {
    map: hashbrown::HashMap<String, ModelId>,
}

/// What a `ModelNameLookup` holds, by the name's characters.
pub uninterp spec fn model_name_lookup_contents(m: ModelNameLookup) -> Map<Seq<char>, ModelId>;

impl View for ModelNameLookup {
    type V = Map<Seq<char>, ModelId>;

    open spec fn view(&self) -> Map<Seq<char>, ModelId> {
        model_name_lookup_contents(*self)
    }
}

impl ModelNameLookup {
    /// `hashbrown::HashMap::new`: an empty map.
    #[verifier::external_body]
    pub(crate) fn new() -> (r: ModelNameLookup)
        ensures
            model_name_lookup_contents(r).dom() == Set::<Seq<char>>::empty(),
    {
        ModelNameLookup { map: hashbrown::HashMap::new() }
    }

    /// `hashbrown::HashMap::get`: the model registered under `name`, if any.
    #[verifier::external_body]
    pub(crate) fn get(&self, name: &String) -> (r: Option<ModelId>)
        ensures
            r == (if model_name_lookup_contents(*self).contains_key(name@) {
                Some(model_name_lookup_contents(*self)[name@])
            } else {
                None::<ModelId>
            }),
    {
        self.map.get(name).copied()
    }

    /// `hashbrown::HashMap::insert`: registers `id` under `name`.
    #[verifier::external_body]
    pub(crate) fn insert(&mut self, name: String, id: ModelId)
        ensures
            model_name_lookup_contents(*final(self)) == model_name_lookup_contents(*old(self)).insert(name@, id),
    {
        self.map.insert(name, id);
    }
}

} // verus!
