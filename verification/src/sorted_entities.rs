use crate::collections::{EntityIndexMap, EntitySet, entity_index_map_contents, entity_set_contents};
use crate::entity_id::EntityId;
use crate::type_identifier::TypeIdentifier;
use vstd::prelude::*;

verus! {

/// A component that entities can be sorted on, with the entities that have it.
pub struct SortableComponent {
    type_id: TypeIdentifier,
    pub entities: EntitySet,
}

/// Sorts entities by components, allowing groups of entities to be queried by a component
/// that only some of them have. Each entity is in at most one group.
pub struct EntityComponentOrganizer {
    components: Vec<SortableComponent>,
    reverse_lookup: EntityIndexMap,
}

/// `i` is the first position of `t` in `types`.
pub open spec fn is_first_position(types: Seq<TypeIdentifier>, t: TypeIdentifier, i: int) -> bool {
    &&& 0 <= i < types.len()
    &&& types[i] == t
    &&& forall|j: int| 0 <= j < i ==> types[j] != t
}

impl EntityComponentOrganizer {
    /// The components entities can be sorted on, in group order.
    pub closed spec fn sortable_types(&self) -> Seq<TypeIdentifier> {
        self.components@.map_values(|c: SortableComponent| c.type_id)
    }

    /// The group each sorted entity instance is in.
    pub closed spec fn membership(&self) -> Map<u32, usize> {
        entity_index_map_contents(self.reverse_lookup)
    }

    /// The organizer's groups agree with its lookup of each entity's group.
    pub closed spec fn wf(&self) -> bool {
        &&& self.components.len() >= 1
        &&& forall|e: u32| #[trigger] self.membership().contains_key(e) ==> self.membership()[e] < self.components.len()
        &&& forall|i: int, e: u32|
            0 <= i < self.components.len() ==> (#[trigger] entity_set_contents(self.components@[i].entities).contains(e)
                <==> (self.membership().contains_key(e) && self.membership()[e] == i))
    }

    /// Creates an organizer whose groups are the default group, then `sortable_components`.
    pub fn new(sortable_components: Vec<TypeIdentifier>) -> (r: EntityComponentOrganizer)
        ensures
            r.wf(),
            r.sortable_types().len() == sortable_components.len() + 1,
            r.sortable_types().drop_first() == sortable_components@,
            r.membership().dom() == Set::<u32>::empty(),
    {
        let mut sortable_components = sortable_components;
        sortable_components.insert(0, TypeIdentifier::of::<TypeIdentifier>());
        let mut components: Vec<SortableComponent> = Vec::new();
        let mut i: usize = 0;
        while i < sortable_components.len()
            invariant
                i <= sortable_components.len(),
                components.len() == i,
                forall|j: int| 0 <= j < i ==> (#[trigger] components@[j]).type_id == sortable_components@[j],
                forall|j: int| 0 <= j < i ==> entity_set_contents(#[trigger] components@[j].entities) == Set::<u32>::empty(),
            decreases sortable_components.len() - i,
        {
            components.push(SortableComponent { type_id: sortable_components[i], entities: EntitySet::new() });
            i = i + 1;
        }
        let r = EntityComponentOrganizer { components, reverse_lookup: EntityIndexMap::new() };
        assert(r.sortable_types().drop_first() =~= sortable_components@.drop_first());
        r
    }

    /// Remove an entity from the group it is in, if any.
    fn remove_entity(&mut self, entity_id: EntityId)
        requires
            old(self).wf(),
        ensures
            final(self).wf(),
            final(self).sortable_types() == old(self).sortable_types(),
            final(self).membership() == old(self).membership().remove(entity_id.instance()),
    {
        let e = entity_id.get_entity_instance();
        if let Some(type_index) = self.reverse_lookup.get(e) {
            assert(self.membership().contains_key(e));
            self.components[type_index].entities.remove(e);
            self.reverse_lookup.remove(e);
            assert(self.sortable_types() =~= old(self).sortable_types());
            assert forall|i: int, x: u32| 0 <= i < self.components.len() implies (#[trigger] entity_set_contents(
                self.components@[i].entities,
            ).contains(x) <==> (self.membership().contains_key(x) && self.membership()[x] == i)) by {
                if i != type_index {
                    assert(self.components@[i] == old(self).components@[i]);
                }
            }
        }
    }

    /// Put an entity in the group of `type_id`, taking it out of the group it was in. A group
    /// for `type_id` is added when there is none.
    pub fn add_entity(&mut self, entity_id: EntityId, type_id: TypeIdentifier)
        requires
            old(self).wf(),
        ensures
            final(self).wf(),
            final(self).sortable_types() == (if old(self).sortable_types().contains(type_id) {
                old(self).sortable_types()
            } else {
                old(self).sortable_types().push(type_id)
            }),
            final(self).membership().contains_key(entity_id.instance()),
            is_first_position(
                final(self).sortable_types(),
                type_id,
                final(self).membership()[entity_id.instance()] as int,
            ),
            final(self).membership().remove(entity_id.instance()) == old(self).membership().remove(
                entity_id.instance(),
            ),
    {
        self.remove_entity(entity_id);
        let ghost before = self.sortable_types();
        let mut index: usize = 0;
        while index < self.components.len() && self.components[index].type_id != type_id
            invariant
                self.wf(),
                self.sortable_types() == before,
                index <= self.components.len(),
                forall|j: int| 0 <= j < index ==> before[j] != type_id,
            decreases self.components.len() - index,
        {
            index = index + 1;
        }
        if index == self.components.len() {
            assert(!before.contains(type_id));
            self.components.push(SortableComponent { type_id, entities: EntitySet::new() });
            assert(self.sortable_types() =~= before.push(type_id));
            assert forall|i: int, x: u32| 0 <= i < self.components.len() implies (#[trigger] entity_set_contents(
                self.components@[i].entities,
            ).contains(x) <==> (self.membership().contains_key(x) && self.membership()[x] == i)) by {
                if i == index {
                    if self.membership().contains_key(x) {
                        assert(self.membership()[x] < index);
                    }
                }
            }
        } else {
            assert(before[index as int] == type_id);
            assert(before.contains(type_id));
        }
        let ghost mid = self.membership();
        let ghost pre = self.components@;
        assert(self.wf());
        let e = entity_id.get_entity_instance();
        assert(!mid.contains_key(e));
        self.components[index].entities.insert(e);
        self.reverse_lookup.insert(e, index);
        assert(self.membership().remove(e) =~= old(self).membership().remove(e));
        assert forall|i: int, x: u32| 0 <= i < self.components.len() implies (#[trigger] entity_set_contents(
            self.components@[i].entities,
        ).contains(x) <==> (self.membership().contains_key(x) && self.membership()[x] == i)) by {
            if i != index {
                assert(self.components@[i] == pre[i]);
                assert(entity_set_contents(pre[i].entities).contains(x) <==> (mid.contains_key(x) && mid[x] == i));
            } else {
                assert(entity_set_contents(pre[i].entities).contains(x) <==> (mid.contains_key(x) && mid[x] == i));
            }
        }
        assert(self.sortable_types() =~= pre.map_values(|c: SortableComponent| c.type_id));
        assert(self.sortable_types()[index as int] == type_id);
        assert forall|j: int| 0 <= j < index implies self.sortable_types()[j] != type_id by {
            assert(self.sortable_types()[j] == before[j]);
        }
    }

    /// Put an entity in the default group, taking it out of the group it was in.
    pub fn add_entity_default_component(&mut self, entity_id: EntityId)
        requires
            old(self).wf(),
        ensures
            final(self).wf(),
            final(self).sortable_types() == old(self).sortable_types(),
            final(self).membership() == old(self).membership().insert(entity_id.instance(), 0usize),
    {
        let default_type = self.components[0].type_id;
        assert(old(self).sortable_types()[0] == default_type);
        assert(old(self).sortable_types().contains(default_type));
        self.add_entity(entity_id, default_type);
        let ghost e = entity_id.instance();
        assert(self.membership()[e] == 0) by {
            if self.membership()[e] > 0 {
                assert(self.sortable_types()[0] == default_type);
            }
        }
        assert(self.membership() =~= old(self).membership().insert(e, 0usize)) by {
            assert(self.membership() =~= self.membership().remove(e).insert(e, 0usize));
            assert(old(self).membership().insert(e, 0usize) =~= old(self).membership().remove(e).insert(e, 0usize));
        }
    }

    /// Get the number of groups.
    pub fn number_sortable_components(&self) -> (r: usize)
        ensures
            r == self.sortable_types().len(),
    {
        self.components.len()
    }

    /// Get the entities of every group, in group order.
    pub fn get_entities_with_sortable_components(&self) -> (r: Vec<&EntitySet>)
        requires
            self.wf(),
        ensures
            r.len() == self.sortable_types().len(),
            forall|i: int, e: u32|
                0 <= i < r.len() ==> (#[trigger] entity_set_contents(*r@[i]).contains(e) <==> (
                self.membership().contains_key(e) && self.membership()[e] == i)),
    {
        let mut r: Vec<&EntitySet> = Vec::new();
        let mut i: usize = 0;
        while i < self.components.len()
            invariant
                self.wf(),
                i <= self.components.len(),
                r.len() == i,
                forall|j: int| 0 <= j < i ==> *(#[trigger] r@[j]) == self.components@[j].entities,
            decreases self.components.len() - i,
        {
            r.push(&self.components[i].entities);
            i = i + 1;
        }
        r
    }
}

/// An entity is in at most one sortable group: the group its lookup names.
pub proof fn lemma_one_group(organizer: &EntityComponentOrganizer, e: u32, i: int, j: int)
    requires
        organizer.wf(),
        0 <= i < organizer.sortable_types().len(),
        0 <= j < organizer.sortable_types().len(),
        organizer.group_contains(i, e),
        organizer.group_contains(j, e),
    ensures
        i == j,
{
    organizer.lemma_group_is_membership(i, e);
    organizer.lemma_group_is_membership(j, e);
}

impl EntityComponentOrganizer {
    /// Whether the group at index `i` holds the entity instance `e`.
    pub closed spec fn group_contains(&self, i: int, e: u32) -> bool {
        entity_set_contents(self.components@[i].entities).contains(e)
    }

    proof fn lemma_group_is_membership(&self, i: int, e: u32)
        requires
            self.wf(),
            0 <= i < self.sortable_types().len(),
        ensures
            self.group_contains(i, e) <==> (self.membership().contains_key(e) && self.membership()[e] == i),
    {
        assert(self.components.len() == self.sortable_types().len());
    }
}

} // verus!
