//! Storage of the values of one component type. Values are kept as bytes in one vector;
//! each entity that has the component owns a slot of `component_size` bytes in it, found
//! through a sparse map. Slots freed by removals are reused by later writes.

use crate::collections::{EntityIndexMap, entity_index_map_contents};
use crate::type_identifier::TypeIdentifier;
use vstd::prelude::*;

verus! {

/// Slots `[a, a + size)` and `[b, b + size)` do not overlap.
pub open spec fn slots_disjoint(a: int, b: int, size: int) -> bool {
    a + size <= b || b + size <= a
}

/// Stores the values of one component type, for every entity that has it.
pub struct IndexInformation {
    type_id: TypeIdentifier,
    component_size: usize,
    instances: Vec<u8>,
    free_space: Vec<usize>,
    sparse_map: EntityIndexMap,
}

impl IndexInformation {
    /// The component type whose values are stored.
    pub closed spec fn type_identifier(&self) -> TypeIdentifier {
        self.type_id
    }

    /// The number of bytes of one value.
    pub closed spec fn size(&self) -> nat {
        self.component_size as nat
    }

    /// The byte offset of each entity's slot.
    pub closed spec fn offsets(&self) -> Map<u32, usize> {
        entity_index_map_contents(self.sparse_map)
    }

    /// The offsets of the slots that are free for reuse, oldest first.
    pub closed spec fn free_slots(&self) -> Seq<usize> {
        self.free_space@
    }

    /// The bytes of the whole store.
    pub closed spec fn bytes(&self) -> Seq<u8> {
        self.instances@
    }

    /// The value stored for each entity that has the component.
    pub closed spec fn values(&self) -> Map<u32, Seq<u8>> {
        Map::new(
            |e: u32| self.offsets().contains_key(e),
            |e: u32|
                self.instances@.subrange(
                    self.offsets()[e] as int,
                    self.offsets()[e] + self.component_size,
                ),
        )
    }

    /// Every slot lies inside the store and no two slots overlap.
    pub closed spec fn wf(&self) -> bool {
        let size = self.component_size as int;
        &&& forall|e: u32| #[trigger]
            self.offsets().contains_key(e) ==> self.offsets()[e] + size <= self.instances.len()
        &&& forall|i: int| 0 <= i < self.free_space.len() ==> #[trigger] self.free_space@[i] + size <= self.instances.len()
        &&& forall|e1: u32, e2: u32|
            #![trigger self.offsets().contains_key(e1), self.offsets().contains_key(e2)]
            self.offsets().contains_key(e1) && self.offsets().contains_key(e2) && e1 != e2 ==> slots_disjoint(
                self.offsets()[e1] as int,
                self.offsets()[e2] as int,
                size,
            )
        &&& forall|i: int, j: int|
            #![trigger self.free_space@[i], self.free_space@[j]]
            0 <= i < self.free_space.len() && 0 <= j < self.free_space.len() && i != j ==> slots_disjoint(
                self.free_space@[i] as int,
                self.free_space@[j] as int,
                size,
            )
        &&& forall|e: u32, i: int|
            #![trigger self.offsets().contains_key(e), self.free_space@[i]]
            self.offsets().contains_key(e) && 0 <= i < self.free_space.len() ==> slots_disjoint(
                self.offsets()[e] as int,
                self.free_space@[i] as int,
                size,
            )
    }

    /// An entity has a value exactly when it has a slot.
    pub proof fn lemma_values_domain(&self)
        ensures
            self.values().dom() == self.offsets().dom(),
            forall|e: u32| #[trigger] self.values().contains_key(e) == self.offsets().contains_key(e),
    {
        assert(self.values().dom() =~= self.offsets().dom());
    }

    /// Every stored value has the size of the component.
    pub proof fn lemma_value_lengths(&self)
        requires
            self.wf(),
        ensures
            forall|e: u32| #[trigger] self.values().contains_key(e) ==> self.values()[e].len() == self.size(),
    {
    }

    /// Creates an empty store for values of `component_size` bytes of the type `type_id`.
    pub fn new(type_id: TypeIdentifier, component_size: usize) -> (r: IndexInformation)
        ensures
            r.wf(),
            r.type_identifier() == type_id,
            r.size() == component_size,
            r.offsets().dom() == Set::<u32>::empty(),
            r.free_slots() == Seq::<usize>::empty(),
            r.bytes() == Seq::<u8>::empty(),
            r.values() == Map::<u32, Seq<u8>>::empty(),
    {
        let r = IndexInformation {
            type_id,
            component_size,
            instances: Vec::new(),
            free_space: Vec::new(),
            sparse_map: EntityIndexMap::new(),
        };
        assert(r.values() =~= Map::<u32, Seq<u8>>::empty());
        r
    }

    /// The component type whose values are stored.
    pub fn get_type_id(&self) -> (r: TypeIdentifier)
        ensures
            r == self.type_identifier(),
    {
        self.type_id
    }

    /// The number of bytes of one value.
    pub fn get_component_size(&self) -> (r: usize)
        ensures
            r == self.size(),
    {
        self.component_size
    }

    /// The number of entities that have the component.
    pub fn number_written(&self) -> (r: usize)
        ensures
            r == self.offsets().len(),
    {
        self.sparse_map.len()
    }

    /// The offsets of the free slots.
    pub fn free_space(&self) -> (r: &Vec<usize>)
        ensures
            r@ == self.free_slots(),
    {
        &self.free_space
    }

    /// The bytes of the whole store.
    pub fn instances(&self) -> (r: &Vec<u8>)
        ensures
            r@ == self.bytes(),
    {
        &self.instances
    }

    /// Every entity that has the component, once each.
    pub fn entities(&self) -> (r: Vec<u32>)
        ensures
            r@.no_duplicates(),
            r@.to_set() == self.offsets().dom(),
    {
        self.sparse_map.keys()
    }

    /// Whether `entity` has the component.
    pub fn contains(&self, entity: u32) -> (r: bool)
        ensures
            r == self.offsets().contains_key(entity),
    {
        self.sparse_map.contains_key(entity)
    }

    /// The position of an entity's value, counted in values rather than bytes.
    pub fn get_index(&self, entity: u32) -> (r: Option<usize>)
        requires
            self.offsets().contains_key(entity) ==> self.size() > 0,
        ensures
            r == (if self.offsets().contains_key(entity) {
                Some((self.offsets()[entity] as nat / self.size()) as usize)
            } else {
                None::<usize>
            }),
    {
        match self.sparse_map.get(entity) {
            Some(offset) => Some(offset / self.component_size),
            None => None,
        }
    }

    /// A copy of an entity's value.
    pub fn get_copy(&self, entity: u32) -> (r: Option<Vec<u8>>)
        requires
            self.wf(),
        ensures
            r is Some <==> self.values().contains_key(entity),
            r matches Some(v) ==> v@ == self.values()[entity],
    {
        match self.sparse_map.get(entity) {
            Some(offset) => {
                let mut v: Vec<u8> = Vec::new();
                let mut i: usize = 0;
                while i < self.component_size
                    invariant
                        self.wf(),
                        self.offsets().contains_key(entity),
                        offset == self.offsets()[entity],
                        offset + self.component_size <= self.instances.len(),
                        i <= self.component_size,
                        v@ == self.instances@.subrange(offset as int, offset + i),
                    decreases self.component_size - i,
                {
                    v.push(self.instances[offset + i]);
                    i = i + 1;
                    assert(v@ =~= self.instances@.subrange(offset as int, offset + i));
                }
                Some(v)
            },
            None => None,
        }
    }

    /// Remove the value stored for `entity`; its slot becomes free.
    pub fn remove_data(&mut self, entity: u32)
        requires
            old(self).wf(),
        ensures
            final(self).wf(),
            final(self).type_identifier() == old(self).type_identifier(),
            final(self).size() == old(self).size(),
            final(self).values() == old(self).values().remove(entity),
            final(self).offsets() == old(self).offsets().remove(entity),
            final(self).bytes() == old(self).bytes(),
            final(self).free_slots() == (if old(self).offsets().contains_key(entity) {
                old(self).free_slots().push(old(self).offsets()[entity])
            } else {
                old(self).free_slots()
            }),
    {
        if let Some(instance_index) = self.sparse_map.get(entity) {
            self.free_space.push(instance_index);
        }
        self.sparse_map.remove(entity);
        proof {
            let size = self.component_size as int;
            if old(self).offsets().contains_key(entity) {
                let n = old(self).free_space.len() as int;
                assert forall|i: int, j: int|
                    0 <= i < self.free_space.len() && 0 <= j < self.free_space.len() && i != j implies slots_disjoint(
                    self.free_space@[i] as int,
                    self.free_space@[j] as int,
                    size,
                ) by {
                    if i == n {
                        assert(old(self).offsets().contains_key(entity));
                        assert(self.free_space@[j] == old(self).free_space@[j]);
                    } else if j == n {
                        assert(self.free_space@[i] == old(self).free_space@[i]);
                    } else {
                        assert(self.free_space@[i] == old(self).free_space@[i]);
                        assert(self.free_space@[j] == old(self).free_space@[j]);
                    }
                }
                assert forall|e: u32, i: int|
                    self.offsets().contains_key(e) && 0 <= i < self.free_space.len() implies slots_disjoint(
                    self.offsets()[e] as int,
                    self.free_space@[i] as int,
                    size,
                ) by {
                    assert(old(self).offsets().contains_key(e));
                    if i < n {
                        assert(self.free_space@[i] == old(self).free_space@[i]);
                    } else {
                        assert(old(self).offsets().contains_key(entity));
                    }
                }
                assert forall|i: int| 0 <= i < self.free_space.len() implies #[trigger] self.free_space@[i] + size
                    <= self.instances.len() by {
                    if i < n {
                        assert(self.free_space@[i] == old(self).free_space@[i]);
                    } else {
                        assert(old(self).offsets().contains_key(entity));
                    }
                }
            }
            assert forall|e: u32| #[trigger] self.offsets().contains_key(e) implies self.offsets()[e] + size <= self.instances.len() by {
                assert(old(self).offsets().contains_key(e));
            }
            assert forall|e1: u32, e2: u32|
                self.offsets().contains_key(e1) && self.offsets().contains_key(e2) && e1 != e2 implies slots_disjoint(
                self.offsets()[e1] as int,
                self.offsets()[e2] as int,
                size,
            ) by {
                assert(old(self).offsets().contains_key(e1));
                assert(old(self).offsets().contains_key(e2));
            }
            assert(self.values() =~= old(self).values().remove(entity));
        }
    }

    /// Copy `value` into the slot at `offset`, leaving every other byte unchanged.
    fn copy_into_slot(&mut self, offset: usize, value: &Vec<u8>)
        requires
            offset + value.len() <= old(self).instances.len(),
        ensures
            final(self).type_id == old(self).type_id,
            final(self).component_size == old(self).component_size,
            final(self).free_space == old(self).free_space,
            final(self).sparse_map == old(self).sparse_map,
            final(self).instances.len() == old(self).instances.len(),
            final(self).instances@.subrange(offset as int, offset + value.len()) == value@,
            forall|j: int|
                0 <= j < old(self).instances.len() && !(offset <= j < offset + value.len()) ==> #[trigger] final(self).instances@[j] == old(self).instances@[j],
    {
        let mut i: usize = 0;
        while i < value.len()
            invariant
                offset + value.len() <= self.instances.len(),
                self.instances.len() == old(self).instances.len(),
                self.type_id == old(self).type_id,
                self.component_size == old(self).component_size,
                self.free_space == old(self).free_space,
                self.sparse_map == old(self).sparse_map,
                i <= value.len(),
                forall|k: int| 0 <= k < i ==> #[trigger] self.instances@[offset + k] == value@[k],
                forall|j: int|
                    0 <= j < old(self).instances.len() && !(offset <= j < offset + i) ==> #[trigger] self.instances@[j]
                        == old(self).instances@[j],
            decreases value.len() - i,
        {
            self.instances.set(offset + i, value[i]);
            i = i + 1;
        }
        assert(self.instances@.subrange(offset as int, offset + value.len()) =~= value@) by {
            assert forall|k: int| 0 <= k < value.len() implies self.instances@.subrange(
                offset as int,
                offset + value.len(),
            )[k] == value@[k] by {
                assert(self.instances@[offset + k] == value@[k]);
            }
        }
    }

    /// Write the value of the component for `entity`, reusing its slot, else a free slot,
    /// else a new slot at the end of the store.
    pub fn write_serialized_data(&mut self, entity: u32, value: &Vec<u8>)
        requires
            old(self).wf(),
            value.len() == old(self).size(),
        ensures
            final(self).wf(),
            final(self).type_identifier() == old(self).type_identifier(),
            final(self).size() == old(self).size(),
            final(self).values() == old(self).values().insert(entity, value@),
            final(self).offsets().dom() == old(self).offsets().dom().insert(entity),
            old(self).offsets().contains_key(entity) ==> final(self).offsets() == old(self).offsets()
                && final(self).free_slots() == old(self).free_slots(),
            !old(self).offsets().contains_key(entity) && old(self).free_slots().len() > 0 ==> final(self).offsets() == old(self).offsets().insert(entity, old(self).free_slots().last())
                && final(self).free_slots() == old(self).free_slots().drop_last(),
            !old(self).offsets().contains_key(entity) && old(self).free_slots().len() == 0 ==> final(self).offsets() == old(self).offsets().insert(entity, old(self).bytes().len() as usize)
                && final(self).free_slots() == old(self).free_slots(),
            final(self).bytes().len() == (if !old(self).offsets().contains_key(entity) && old(self).free_slots().len() == 0 {
                old(self).bytes().len() + old(self).size()
            } else {
                old(self).bytes().len()
            }),
            final(self).bytes().subrange(
                final(self).offsets()[entity] as int,
                final(self).offsets()[entity] + old(self).size(),
            ) == value@,
            forall|j: int|
                0 <= j < old(self).bytes().len() && !(final(self).offsets()[entity] <= j < final(self).offsets()[entity]
                    + old(self).size()) ==> #[trigger] final(self).bytes()[j] == old(self).bytes()[j],
    {
        let ghost size = self.component_size as int;
        match self.sparse_map.get(entity) {
            Some(instance_index) => {
                assert(self.offsets().contains_key(entity));
                self.copy_into_slot(instance_index, value);
                proof {
                    self.lemma_other_values_kept(*old(self), instance_index as int, entity);
                    assert(self.values() =~= old(self).values().insert(entity, value@));
                    assert(self.offsets().dom() =~= old(self).offsets().dom().insert(entity));
                }
            },
            None => {
                match self.free_space.pop() {
                    Some(index) => {
                        proof {
                            let n = old(self).free_space.len() as int;
                            assert(index == old(self).free_space@[n - 1]);
                            assert(index + size <= self.instances.len());
                        }
                        let ghost mid = *self;
                        self.copy_into_slot(index, value);
                        self.sparse_map.insert(entity, index);
                        proof {
                            let n = old(self).free_space.len() as int;
                            assert forall|e: u32| e != entity && #[trigger] old(self).offsets().contains_key(e) implies slots_disjoint(
                                old(self).offsets()[e] as int,
                                index as int,
                                size,
                            ) by {
                                assert(old(self).free_space@[n - 1] == index);
                            }
                            mid.lemma_other_values_kept_at(*old(self), self.instances@, index as int, entity);
                            self.lemma_wf_after_fill(*old(self), index as int, entity, false);
                            assert(self.values() =~= old(self).values().insert(entity, value@)) by {
                                assert forall|e: u32| #[trigger] self.values().contains_key(e) implies self.values()[e]
                                    == old(self).values().insert(entity, value@)[e] by {
                                    if e != entity {
                                        assert(old(self).values().contains_key(e));
                                    }
                                }
                            }
                            assert(self.offsets().dom() =~= old(self).offsets().dom().insert(entity));
                        }
                    },
                    None => {
                        let write_index = self.instances.len();
                        let mut k: usize = 0;
                        while k < value.len()
                            invariant
                                self.type_id == old(self).type_id,
                                self.component_size == old(self).component_size,
                                self.free_space@ == old(self).free_space@,
                                self.sparse_map == old(self).sparse_map,
                                write_index == old(self).instances.len(),
                                k <= value.len(),
                                self.instances.len() == write_index + k,
                                self.instances@.subrange(0, write_index as int) == old(self).instances@,
                            decreases value.len() - k,
                        {
                            self.instances.push(0);
                            k = k + 1;
                            assert(self.instances@.subrange(0, write_index as int) =~= old(self).instances@);
                        }
                        let ghost grown = *self;
                        self.copy_into_slot(write_index, value);
                        self.sparse_map.insert(entity, write_index);
                        proof {
                            assert forall|j: int| 0 <= j < write_index implies #[trigger] self.instances@[j]
                                == old(self).instances@[j] by {
                                assert(grown.instances@.subrange(0, write_index as int)[j] == old(self).instances@[j]);
                            }
                            assert forall|e: u32| e != entity && #[trigger] old(self).offsets().contains_key(e) implies slots_disjoint(
                                old(self).offsets()[e] as int,
                                write_index as int,
                                size,
                            ) by {}
                            self.lemma_wf_after_fill(*old(self), write_index as int, entity, true);
                            assert(self.values() =~= old(self).values().insert(entity, value@)) by {
                                assert forall|e: u32| #[trigger] self.values().contains_key(e) implies self.values()[e]
                                    == old(self).values().insert(entity, value@)[e] by {
                                    if e != entity {
                                        assert(old(self).values().contains_key(e));
                                        let o = old(self).offsets()[e] as int;
                                        assert(self.instances@.subrange(o, o + size) =~= old(self).instances@.subrange(
                                            o,
                                            o + size,
                                        ));
                                    }
                                }
                            }
                            assert(self.offsets().dom() =~= old(self).offsets().dom().insert(entity));
                        }
                    },
                }
            },
        }
    }

    /// After the slot at `offset` of `entity` was overwritten in place, every other value is kept.
    proof fn lemma_other_values_kept(&self, before: IndexInformation, offset: int, entity: u32)
        requires
            before.wf(),
            before.offsets().contains_key(entity),
            before.offsets()[entity] == offset,
            self.component_size == before.component_size,
            self.sparse_map == before.sparse_map,
            self.free_space == before.free_space,
            self.instances.len() == before.instances.len(),
            forall|j: int|
                0 <= j < before.instances.len() && !(offset <= j < offset + before.component_size) ==> #[trigger] self.instances@[j]
                    == before.instances@[j],
        ensures
            self.wf(),
            forall|e: u32| e != entity && #[trigger] before.offsets().contains_key(e) ==> self.values()[e] == before.values()[e],
    {
        let size = before.component_size as int;
        assert forall|e: u32| e != entity && #[trigger] before.offsets().contains_key(e) implies self.values()[e]
            == before.values()[e] by {
            let o = before.offsets()[e] as int;
            assert(slots_disjoint(o, offset, size));
            assert(self.instances@.subrange(o, o + size) =~= before.instances@.subrange(o, o + size));
        }
    }

    /// After a slot at `offset` for `entity` was filled and recorded, whether from the free
    /// slots (`appended` false) or appended at the end (`appended` true), the store is well formed.
    proof fn lemma_wf_after_fill(&self, before: IndexInformation, offset: int, entity: u32, appended: bool)
        requires
            before.wf(),
            !before.offsets().contains_key(entity),
            self.component_size == before.component_size,
            self.offsets() == before.offsets().insert(entity, offset as usize),
            appended ==> self.free_space@ == before.free_space@ && offset == before.instances.len()
                && self.instances.len() == before.instances.len() + before.component_size,
            !appended ==> before.free_space.len() > 0 && self.free_space@ == before.free_space@.drop_last()
                && offset == before.free_space@.last() && self.instances.len() == before.instances.len(),
            forall|e: u32| e != entity && #[trigger] before.offsets().contains_key(e) ==> slots_disjoint(
                before.offsets()[e] as int,
                offset,
                before.component_size as int,
            ),
        ensures
            self.wf(),
    {
        let size = self.component_size as int;
        let n = before.free_space.len() as int;
        assert forall|e: u32| #[trigger] self.offsets().contains_key(e) implies self.offsets()[e] + size
            <= self.instances.len() by {
            if e != entity {
                assert(before.offsets().contains_key(e));
            } else if !appended {
                assert(before.free_space@[n - 1] + size <= before.instances.len());
            }
        }
        assert forall|i: int| 0 <= i < self.free_space.len() implies #[trigger] self.free_space@[i] + size
            <= self.instances.len() by {
            assert(self.free_space@[i] == before.free_space@[i]);
        }
        assert forall|e1: u32, e2: u32|
            self.offsets().contains_key(e1) && self.offsets().contains_key(e2) && e1 != e2 implies slots_disjoint(
            self.offsets()[e1] as int,
            self.offsets()[e2] as int,
            size,
        ) by {
            if e1 != entity && e2 != entity {
                assert(before.offsets().contains_key(e1));
                assert(before.offsets().contains_key(e2));
            } else if e1 == entity {
                assert(before.offsets().contains_key(e2));
            } else {
                assert(before.offsets().contains_key(e1));
            }
        }
        assert forall|i: int, j: int|
            0 <= i < self.free_space.len() && 0 <= j < self.free_space.len() && i != j implies slots_disjoint(
            self.free_space@[i] as int,
            self.free_space@[j] as int,
            size,
        ) by {
            assert(self.free_space@[i] == before.free_space@[i]);
            assert(self.free_space@[j] == before.free_space@[j]);
        }
        assert forall|e: u32, i: int|
            self.offsets().contains_key(e) && 0 <= i < self.free_space.len() implies slots_disjoint(
            self.offsets()[e] as int,
            self.free_space@[i] as int,
            size,
        ) by {
            assert(self.free_space@[i] == before.free_space@[i]);
            if e != entity {
                assert(before.offsets().contains_key(e));
            } else if !appended {
                assert(before.free_space@[n - 1] == offset);
                assert(i != n - 1);
            } else {
                assert(before.free_space@[i] + size <= before.instances.len());
            }
        }
    }

    /// After the free slot at `offset` was filled for `entity`, every other value is kept.
    proof fn lemma_other_values_kept_at(&self, before: IndexInformation, bytes: Seq<u8>, offset: int, entity: u32)
        requires
            before.wf(),
            self.instances@.len() == before.instances@.len(),
            bytes.len() == before.instances@.len(),
            forall|j: int|
                0 <= j < before.instances.len() && !(offset <= j < offset + before.component_size) ==> #[trigger] bytes[j]
                    == before.instances@[j],
            forall|e: u32| e != entity && #[trigger] before.offsets().contains_key(e) ==> slots_disjoint(
                before.offsets()[e] as int,
                offset,
                before.component_size as int,
            ),
        ensures
            forall|e: u32| e != entity && #[trigger] before.offsets().contains_key(e) ==> bytes.subrange(
                before.offsets()[e] as int,
                before.offsets()[e] + before.component_size,
            ) == before.values()[e],
    {
        let size = before.component_size as int;
        assert forall|e: u32| e != entity && #[trigger] before.offsets().contains_key(e) implies bytes.subrange(
            before.offsets()[e] as int,
            before.offsets()[e] + before.component_size,
        ) == before.values()[e] by {
            let o = before.offsets()[e] as int;
            assert(bytes.subrange(o, o + size) =~= before.instances@.subrange(o, o + size));
        }
    }
}

} // verus!
