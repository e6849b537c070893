//! Per-frame upkeep of the entity-component store done by the logic of the world: the
//! markers of entities that moved or rotated during a frame are cleared for the next one.

use crate::ecs::{instances_of, lemma_written_iff_stored, ECS};
use crate::entity_id::EntityId;
use crate::type_identifier::TypeIdentifier;
use vstd::prelude::*;

verus! {

/// Removes the component `type_id` from each entity of `entities`.
fn remove_from_each(ecs: &mut ECS, entities: &Vec<EntityId>, type_id: TypeIdentifier)
    requires
        old(ecs).wf(),
        old(ecs).is_registered(type_id),
        forall|i: int| 0 <= i < entities@.len() ==> (#[trigger] entities@[i]).instance() < old(ecs).num_entities(),
    ensures
        final(ecs).wf(),
        final(ecs).same_bookkeeping(old(ecs)),
        forall|e: int, c: int| #[trigger] final(ecs).has_component(e, c) == (old(ecs).has_component(e, c) && !(c
            == old(ecs).type_index(type_id) && 0 <= e && instances_of(entities@).contains(e as u32))),
        forall|c: int| 0 <= c < old(ecs).component_types().len() && c != old(ecs).type_index(type_id) ==> #[trigger] final(ecs).component_values(c)
            == old(ecs).component_values(c),
        final(ecs).component_values(old(ecs).type_index(type_id)) == old(ecs).component_values(
            old(ecs).type_index(type_id),
        ).remove_keys(instances_of(entities@).to_set()),
{
    let ghost start = *ecs;
    let ghost c = start.type_index(type_id);
    proof {
        start.lemma_entity_count_bounded();
    }
    assert(instances_of(entities@).take(0).to_set() =~= Set::<u32>::empty());
    assert(start.component_values(c).remove_keys(Set::<u32>::empty()) =~= start.component_values(c));
    let mut j: usize = 0;
    while j < entities.len()
        invariant
            j <= entities.len(),
            start == *old(ecs),
            c == start.type_index(type_id),
            start.wf(),
            start.is_registered(type_id),
            0 <= c < start.component_types().len(),
            start.num_entities() <= u32::MAX,
            forall|i: int| 0 <= i < entities@.len() ==> (#[trigger] entities@[i]).instance() < start.num_entities(),
            ecs.wf(),
            ecs.same_bookkeeping(&start),
            ecs.is_registered(type_id),
            ecs.type_index(type_id) == c,
            forall|e: int, c2: int| #[trigger] ecs.has_component(e, c2) == (start.has_component(e, c2) && !(c2 == c && 0
                <= e && instances_of(entities@).take(j as int).contains(e as u32))),
            forall|c2: int| 0 <= c2 < start.component_types().len() && c2 != c ==> #[trigger] ecs.component_values(c2)
                == start.component_values(c2),
            ecs.component_values(c) == start.component_values(c).remove_keys(instances_of(entities@).take(j as int).to_set()),
        decreases entities.len() - j,
    {
        let entity = entities[j];
        let ghost prev = *ecs;
        let ghost inst = entity.instance();
        ecs.remove_component(entity, type_id);
        let ghost done = instances_of(entities@).take(j as int);
        let ghost next = instances_of(entities@).take(j as int + 1);
        assert(next =~= done.push(inst));
        assert forall|x: u32| #[trigger] next.contains(x) <==> (done.contains(x) || x == inst) by {
            if done.contains(x) {
                let a = choose|a: int| 0 <= a < done.len() && done[a] == x;
                assert(next[a] == x);
            }
            if x == inst {
                assert(next[done.len() as int] == x);
            }
            if next.contains(x) {
                let a = choose|a: int| 0 <= a < next.len() && next[a] == x;
                if a < done.len() {
                    assert(done[a] == x);
                }
            }
        }
        assert forall|e: int, c2: int| #[trigger] ecs.has_component(e, c2) == (start.has_component(e, c2) && !(c2 == c
            && 0 <= e && next.contains(e as u32))) by {
            if !(e == inst as int && c2 == c) {
                assert(ecs.has_component(e, c2) == prev.has_component(e, c2));
                if c2 == c && 0 <= e && next.contains(e as u32) && !done.contains(e as u32) {
                    assert(e as u32 == inst);
                    start.lemma_component_holder_exists(e, c2);
                    assert(!start.has_component(e, c2));
                }
            }
        }
        assert(ecs.component_values(c) =~= start.component_values(c).remove_keys(next.to_set()));
        j = j + 1;
    }
    assert(instances_of(entities@).take(entities.len() as int) =~= instances_of(entities@));
}

/// Clears the markers of the entities that moved and of those that rotated: no entity has
/// the component `has_moved` or `has_rotated` afterwards, and nothing else changes.
pub fn reset_has_changed_component(ecs: &mut ECS, has_moved: TypeIdentifier, has_rotated: TypeIdentifier)
    requires
        old(ecs).wf(),
        old(ecs).is_registered(has_moved),
        old(ecs).is_registered(has_rotated),
    ensures
        final(ecs).wf(),
        final(ecs).same_bookkeeping(old(ecs)),
        forall|e: int, c: int| #[trigger] final(ecs).has_component(e, c) == (old(ecs).has_component(e, c) && c
            != old(ecs).type_index(has_moved) && c != old(ecs).type_index(has_rotated)),
        forall|c: int|
            0 <= c < old(ecs).component_types().len() && c != old(ecs).type_index(has_moved) && c != old(ecs).type_index(
                has_rotated,
            ) ==> #[trigger] final(ecs).component_values(c) == old(ecs).component_values(c),
        final(ecs).component_values(old(ecs).type_index(has_moved)) == Map::<u32, Seq<u8>>::empty(),
        final(ecs).component_values(old(ecs).type_index(has_rotated)) == Map::<u32, Seq<u8>>::empty(),
{
    let ghost start = *ecs;
    let ghost m = start.type_index(has_moved);
    let ghost t = start.type_index(has_rotated);
    proof {
        start.lemma_entity_count_bounded();
    }
    let moved_types = vec![has_moved];
    let rotated_types = vec![has_rotated];
    let entities_that_moved = ecs.get_indexes_for_components(moved_types.as_slice());
    let entities_that_rotated = ecs.get_indexes_for_components(rotated_types.as_slice());
    assert forall|i: int| 0 <= i < entities_that_moved@.len() implies (#[trigger] entities_that_moved@[i]).instance()
        < start.num_entities() by {
        assert(instances_of(entities_that_moved@)[i] == entities_that_moved@[i].instance());
        assert(instances_of(entities_that_moved@).contains(entities_that_moved@[i].instance()));
    }
    assert forall|i: int| 0 <= i < entities_that_rotated@.len() implies (#[trigger] entities_that_rotated@[i]).instance()
        < start.num_entities() by {
        assert(instances_of(entities_that_rotated@)[i] == entities_that_rotated@[i].instance());
        assert(instances_of(entities_that_rotated@).contains(entities_that_rotated@[i].instance()));
    }
    remove_from_each(ecs, &entities_that_moved, has_moved);
    let ghost mid = *ecs;
    remove_from_each(ecs, &entities_that_rotated, has_rotated);
    // an entity has a marker exactly when it is listed, so no entity keeps one
    assert forall|e: int, c: int| #[trigger] ecs.has_component(e, c) == (start.has_component(e, c) && c != m && c
        != t) by {
        assert(ecs.has_component(e, c) == (mid.has_component(e, c) && !(c == t && 0 <= e && instances_of(
            entities_that_rotated@,
        ).contains(e as u32))));
        assert(mid.has_component(e, c) == (start.has_component(e, c) && !(c == m && 0 <= e && instances_of(
            entities_that_moved@,
        ).contains(e as u32))));
        start.lemma_component_holder_exists(e, c);
        if start.has_component(e, c) && c == m {
            assert(0 <= e < start.num_entities());
            assert(moved_types@[0] == has_moved);
            assert(instances_of(entities_that_moved@).contains(e as u32));
        }
        if start.has_component(e, c) && c == t {
            assert(0 <= e < start.num_entities());
            assert(rotated_types@[0] == has_rotated);
            assert(instances_of(entities_that_rotated@).contains(e as u32));
        }
    }
    assert forall|x: u32| !#[trigger] ecs.component_values(m).contains_key(x) by {
        lemma_written_iff_stored(ecs, x, m);
    }
    assert(ecs.component_values(m) =~= Map::<u32, Seq<u8>>::empty());
    assert forall|x: u32| !#[trigger] ecs.component_values(t).contains_key(x) by {
        lemma_written_iff_stored(ecs, x, t);
    }
    assert(ecs.component_values(t) =~= Map::<u32, Seq<u8>>::empty());
}

} // verus!
