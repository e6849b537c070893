use crate::collections::EntitySet;
use crate::ecs::{lookup_add, lookup_remove, ECS};
use crate::model_definitions::{model_id_bytes, ModelId};
use crate::model_storage::{entity_model, model_of_entity, ModelBankOwner};
use crate::entity_id::{EntityId, EntityIdRead};
use crate::type_identifier::TypeIdentifier;
use vstd::prelude::*;

verus! {

/// The changes of components requested for one entity: each is a component type with
/// `Some` of its new value in serialized form (empty for a zero-sized component), or `None`
/// for a removal request.
pub struct EntityChangeRequest {
    pub entity_id: EntityId,
    pub type_id: Vec<(TypeIdentifier, Option<Vec<u8>>)>,
}

/// The value a change entry holds, as bytes: `None` for a removal request.
pub open spec fn change_value(v: Option<Vec<u8>>) -> Option<Seq<u8>> {
    match v {
        Some(bytes) => Some(bytes@),
        None => None,
    }
}

impl EntityChangeRequest {
    /// Creates an empty change request for the given entity.
    pub fn new(entity_id: EntityId) -> (r: EntityChangeRequest)
        ensures
            r.entity_id == entity_id,
            r.type_id@.len() == 0,
    {
        EntityChangeRequest { entity_id, type_id: Vec::new() }
    }

    /// Carries out the change at `change_index` on the entity: a removal request removes the
    /// component; any other change writes its value, overwriting the previous one.
    pub fn apply_changes(&self, ecs: &mut ECS, change_index: usize)
        requires
            old(ecs).wf(),
            change_index < self.type_id.len(),
            old(ecs).is_registered(self.type_id@[change_index as int].0),
            self.entity_id.instance() < old(ecs).num_entities(),
            self.type_id@[change_index as int].1 matches Some(v) ==> v.len() == old(ecs).component_size(
                old(ecs).type_index(self.type_id@[change_index as int].0),
            ),
        ensures
            final(ecs).wf(),
            ({
                let c = old(ecs).type_index(self.type_id@[change_index as int].0);
                let e = self.entity_id.instance();
                &&& final(ecs).changed_only(old(ecs), e as int, c)
                &&& match change_value(self.type_id@[change_index as int].1) {
                    None => !final(ecs).has_component(e as int, c) && final(ecs).component_values(c)
                        == old(ecs).component_values(c).remove(e),
                    Some(v) => final(ecs).has_component(e as int, c) && final(ecs).component_values(c)
                        == old(ecs).component_values(c).insert(e, v),
                }
            }),
    {
        let (type_id, change) = &self.type_id[change_index];
        match change {
            None => ecs.remove_component(self.entity_id, *type_id),
            Some(serialized_value) => ecs.write_component_serialized(self.entity_id, *type_id, serialized_value),
        }
    }

    /// Requests that the component `type_id` get the value `serialized_value`.
    pub fn add_new_change(&mut self, type_id: TypeIdentifier, serialized_value: Vec<u8>)
        ensures
            final(self).entity_id == old(self).entity_id,
            final(self).type_id@ == old(self).type_id@.push((type_id, Some(serialized_value))),
    {
        self.type_id.push((type_id, Some(serialized_value)));
    }

    /// Requests the removal of the component of type `T`.
    pub fn remove_component<T: ?Sized + 'static>(&mut self)
        ensures
            final(self).entity_id == old(self).entity_id,
            final(self).type_id@.len() == old(self).type_id@.len() + 1,
            final(self).type_id@.drop_last() == old(self).type_id@,
            final(self).type_id@.last().1 is None,
    {
        let type_id = TypeIdentifier::of::<T>();
        self.type_id.push((type_id, None));
        assert(self.type_id@.drop_last() =~= old(self).type_id@);
    }

    /// Get the number of changes requested.
    pub fn number_changes(&self) -> (r: usize)
        ensures
            r == self.type_id@.len(),
    {
        self.type_id.len()
    }
}

/// The component types whose changes move an entity.
#[derive(Copy, Clone)]
pub struct KinematicTypes {
    /// The bounding volume, which only a change of the others may change.
    pub aabb: TypeIdentifier,
    pub position: TypeIdentifier,
    pub rotation: TypeIdentifier,
    pub scale: TypeIdentifier,
}

/// The entities whose movement changed during one frame's changes, and those deleted.
pub struct ChangeTracking {
    /// Entities whose rotation or scale changed, and possibly their position.
    pub kinematics_changed: EntitySet,
    /// Entities of which only the position changed.
    pub only_translation_changed: EntitySet,
    /// Entities deleted this frame.
    pub deleted: EntitySet,
}

impl ChangeTracking {
    /// No entity tracked.
    pub fn new() -> (r: ChangeTracking)
        ensures
            r.kinematics_changed@ == Set::<u32>::empty(),
            r.only_translation_changed@ == Set::<u32>::empty(),
            r.deleted@ == Set::<u32>::empty(),
    {
        ChangeTracking {
            kinematics_changed: EntitySet::new(),
            only_translation_changed: EntitySet::new(),
            deleted: EntitySet::new(),
        }
    }

    /// A new entity with the instance `e` starts untracked.
    pub fn record_new_entity(&mut self, e: u32)
        ensures
            final(self).kinematics_changed@ == old(self).kinematics_changed@.remove(e),
            final(self).only_translation_changed@ == old(self).only_translation_changed@.remove(e),
            final(self).deleted@ == old(self).deleted@.remove(e),
    {
        self.kinematics_changed.remove(e);
        self.only_translation_changed.remove(e);
        self.deleted.remove(e);
    }

    /// The entity with the instance `e` was deleted: its movement no longer matters.
    pub fn record_deletion(&mut self, e: u32)
        ensures
            final(self).kinematics_changed@ == old(self).kinematics_changed@.remove(e),
            final(self).only_translation_changed@ == old(self).only_translation_changed@,
            final(self).deleted@ == old(self).deleted@.insert(e),
    {
        self.kinematics_changed.remove(e);
        self.deleted.insert(e);
    }
}

/// Some change among the first `n` of `changes` is of the type `t`, and `t` is not `aabb`.
pub open spec fn changes_type(changes: Seq<(TypeIdentifier, Option<Vec<u8>>)>, n: int, t: TypeIdentifier, aabb: TypeIdentifier) -> bool {
    t != aabb && exists|i: int| 0 <= i < n && (#[trigger] changes[i]).0 == t
}

/// The last change among the first `n` of `changes` whose type is `t`, when `t` is not
/// `aabb`: `Some` of the value it writes, or `Some(None)` for a removal request.
pub open spec fn last_change_value(
    changes: Seq<(TypeIdentifier, Option<Vec<u8>>)>,
    n: int,
    t: TypeIdentifier,
    aabb: TypeIdentifier,
) -> Option<Option<Seq<u8>>>
    decreases n,
{
    if n <= 0 || t == aabb {
        None
    } else if changes[n - 1].0 == t {
        Some(change_value(changes[n - 1].1))
    } else {
        last_change_value(changes, n - 1, t, aabb)
    }
}

/// The component at index `c` of the entity `e` in `now` is what the first `n` of `changes`
/// made of it in `before`: the last change of its type, if any, decides; a removal request
/// removes the component, any other change gives it its value, whatever the value's size.
pub open spec fn component_after(
    now: &ECS,
    before: &ECS,
    changes: Seq<(TypeIdentifier, Option<Vec<u8>>)>,
    n: int,
    aabb: TypeIdentifier,
    e: u32,
    c: int,
) -> bool {
    match last_change_value(changes, n, before.component_types()[c], aabb) {
        Some(None) => !now.has_component(e as int, c) && now.component_values(c) == before.component_values(c).remove(e),
        Some(Some(v)) => now.has_component(e as int, c) && now.component_values(c) == before.component_values(c).insert(e, v),
        None => now.has_component(e as int, c) == before.has_component(e as int, c) && now.component_values(c)
            == before.component_values(c),
    }
}

/// Every change of `request` other than of the bounding volume can be carried out on `ecs`:
/// its type is registered and a value it writes has the type's size.
pub open spec fn changes_writable(ecs: &ECS, request: &EntityChangeRequest, aabb: TypeIdentifier) -> bool {
    &&& request.entity_id.instance() < ecs.num_entities()
    &&& forall|i: int|
        0 <= i < request.type_id@.len() && (#[trigger] request.type_id@[i]).0 != aabb ==> ecs.is_registered(
            request.type_id@[i].0,
        ) && (request.type_id@[i].1 matches Some(v) ==> v.len() == ecs.component_size(
            ecs.type_index(request.type_id@[i].0),
        ))
}

/// The tracking sets after the movement changes of `e` were recorded.
pub open spec fn tracked_movement(
    kinematics: Set<u32>,
    only_translation: Set<u32>,
    e: u32,
    position: bool,
    rotation: bool,
    scale: bool,
) -> (Set<u32>, Set<u32>) {
    if position && !rotation && !scale {
        if !kinematics.contains(e) {
            (kinematics, only_translation.insert(e))
        } else {
            (kinematics, only_translation)
        }
    } else if position || rotation || scale {
        (kinematics.insert(e), only_translation.remove(e))
    } else {
        (kinematics, only_translation)
    }
}

/// What applying the request `r` does: nothing to a deleted entity; otherwise each of its
/// changes, bounding volume changes aside, is carried out on the entity (an empty value
/// removes the component, any other value is written), later changes of a type overriding
/// earlier ones, and the entity's movement is recorded.
pub open spec fn request_applied(
    pre: ECS,
    post: ECS,
    pre_t: ChangeTracking,
    post_t: ChangeTracking,
    r: EntityChangeRequest,
    kinds: KinematicTypes,
) -> bool {
    &&& post_t.deleted@ == pre_t.deleted@
    &&& pre_t.deleted@.contains(r.entity_id.instance()) ==> post == pre && post_t.kinematics_changed@
        == pre_t.kinematics_changed@ && post_t.only_translation_changed@ == pre_t.only_translation_changed@
    &&& !pre_t.deleted@.contains(r.entity_id.instance()) ==> {
        let n = r.type_id@.len() as int;
        let e = r.entity_id.instance();
        let changes = r.type_id@;
        &&& post.same_bookkeeping(&pre)
        &&& forall|e2: int, c: int| e2 != e ==> #[trigger] post.has_component(e2, c) == pre.has_component(e2, c)
        &&& forall|c: int| 0 <= c < pre.component_types().len() ==> #[trigger] component_after(
            &post,
            &pre,
            changes,
            n,
            kinds.aabb,
            e,
            c,
        )
        &&& (post_t.kinematics_changed@, post_t.only_translation_changed@) == tracked_movement(
            pre_t.kinematics_changed@,
            pre_t.only_translation_changed@,
            e,
            changes_type(changes, n, kinds.position, kinds.aabb),
            changes_type(changes, n, kinds.rotation, kinds.aabb),
            changes_type(changes, n, kinds.scale, kinds.aabb),
        )
    }
}

/// Applies the changes of a request to its entity, unless the entity was deleted this
/// frame, and records whether its position, rotation or scale changed. Changes of the
/// bounding volume are skipped: it only changes through a transformation.
pub fn apply_entity_change_requests(
    ecs: &mut ECS,
    change_request: &EntityChangeRequest,
    tracking: &mut ChangeTracking,
    kinds: &KinematicTypes,
)
    requires
        old(ecs).wf(),
        changes_writable(old(ecs), change_request, kinds.aabb),
    ensures
        final(ecs).wf(),
        request_applied(*old(ecs), *final(ecs), *old(tracking), *final(tracking), *change_request, *kinds),
{
    let e = change_request.entity_id.get_entity_instance();
    if tracking.deleted.contains(e) {
        return;
    }
    let mut position_changed = false;
    let mut rotation_changed = false;
    let mut scale_changed = false;
    let ghost changes = change_request.type_id@;
    let mut i: usize = 0;
    while i < change_request.number_changes()
        invariant
            ecs.wf(),
            changes == change_request.type_id@,
            e == change_request.entity_id.instance(),
            changes_writable(ecs, change_request, kinds.aabb),
            i <= changes.len(),
            ecs.same_bookkeeping(old(ecs)),
            *tracking == *old(tracking),
            !old(tracking).deleted@.contains(e),
            forall|e2: int, c: int| e2 != e ==> #[trigger] ecs.has_component(e2, c) == old(ecs).has_component(e2, c),
            forall|c: int| 0 <= c < old(ecs).component_types().len() ==> #[trigger] component_after(
                ecs,
                old(ecs),
                changes,
                i as int,
                kinds.aabb,
                e,
                c,
            ),
            position_changed == changes_type(changes, i as int, kinds.position, kinds.aabb),
            rotation_changed == changes_type(changes, i as int, kinds.rotation, kinds.aabb),
            scale_changed == changes_type(changes, i as int, kinds.scale, kinds.aabb),
        decreases changes.len() - i,
    {
        let t = change_request.type_id[i].0;
        if t == kinds.aabb {
            proof {
                assert forall|c: int| 0 <= c < old(ecs).component_types().len() implies #[trigger] component_after(
                    ecs,
                    old(ecs),
                    changes,
                    i + 1,
                    kinds.aabb,
                    e,
                    c,
                ) by {
                    assert(component_after(ecs, old(ecs), changes, i as int, kinds.aabb, e, c));
                    let tc = old(ecs).component_types()[c];
                    assert(last_change_value(changes, i + 1, tc, kinds.aabb) == last_change_value(changes, i as int, tc, kinds.aabb));
                }
                assert(changes_type(changes, i + 1, kinds.position, kinds.aabb) == changes_type(changes, i as int, kinds.position, kinds.aabb)) by {
                    if changes_type(changes, i + 1, kinds.position, kinds.aabb) {
                        let j = choose|j: int| 0 <= j < i + 1 && (#[trigger] changes[j]).0 == kinds.position;
                        assert(j != i);
                    }
                }
                assert(changes_type(changes, i + 1, kinds.rotation, kinds.aabb) == changes_type(changes, i as int, kinds.rotation, kinds.aabb)) by {
                    if changes_type(changes, i + 1, kinds.rotation, kinds.aabb) {
                        let j = choose|j: int| 0 <= j < i + 1 && (#[trigger] changes[j]).0 == kinds.rotation;
                        assert(j != i);
                    }
                }
                assert(changes_type(changes, i + 1, kinds.scale, kinds.aabb) == changes_type(changes, i as int, kinds.scale, kinds.aabb)) by {
                    if changes_type(changes, i + 1, kinds.scale, kinds.aabb) {
                        let j = choose|j: int| 0 <= j < i + 1 && (#[trigger] changes[j]).0 == kinds.scale;
                        assert(j != i);
                    }
                }
            }
            i = i + 1;
            continue;
        }
        let ghost before = *ecs;
        proof {
            assert(changes[i as int].0 != kinds.aabb);
        }
        change_request.apply_changes(ecs, i);
        position_changed = position_changed || t == kinds.position;
        rotation_changed = rotation_changed || t == kinds.rotation;
        scale_changed = scale_changed || t == kinds.scale;
        proof {
            let ci = before.type_index(t);
            assert(0 <= ci < old(ecs).component_types().len() && old(ecs).component_types()[ci] == t);
            assert forall|c: int| 0 <= c < old(ecs).component_types().len() implies #[trigger] component_after(
                ecs,
                old(ecs),
                changes,
                i + 1,
                kinds.aabb,
                e,
                c,
            )
            by {
                assert(component_after(&before, old(ecs), changes, i as int, kinds.aabb, e, c));
                let tc = old(ecs).component_types()[c];
                if c == ci {
                    let w = change_value(changes[i as int].1);
                    assert(last_change_value(changes, i + 1, tc, kinds.aabb) == Some(w));
                    let start = old(ecs).component_values(c);
                    match last_change_value(changes, i as int, tc, kinds.aabb) {
                        Some(Some(v)) => {
                            match w {
                                Some(x) => assert(start.insert(e, v).insert(e, x) =~= start.insert(e, x)),
                                None => assert(start.insert(e, v).remove(e) =~= start.remove(e)),
                            }
                        },
                        Some(None) => {
                            match w {
                                Some(x) => assert(start.remove(e).insert(e, x) =~= start.insert(e, x)),
                                None => assert(start.remove(e).remove(e) =~= start.remove(e)),
                            }
                        },
                        None => {},
                    }
                } else {
                    assert(tc != t) by {
                        assert(old(ecs).component_types()[ci] == t);
                        if tc == t {
                            before.lemma_types_distinct(c, ci);
                        }
                    }
                    assert(last_change_value(changes, i + 1, tc, kinds.aabb) == last_change_value(changes, i as int, tc, kinds.aabb));
                }
            }
            assert(changes_type(changes, i + 1, kinds.position, kinds.aabb) == (changes_type(changes, i as int, kinds.position, kinds.aabb)
                || t == kinds.position)) by {
                if t == kinds.position {
                    assert(changes[i as int].0 == kinds.position);
                }
                if changes_type(changes, i + 1, kinds.position, kinds.aabb) && t != kinds.position {
                    let j = choose|j: int| 0 <= j < i + 1 && (#[trigger] changes[j]).0 == kinds.position;
                    assert(j != i);
                }
            }
            assert(changes_type(changes, i + 1, kinds.rotation, kinds.aabb) == (changes_type(changes, i as int, kinds.rotation, kinds.aabb)
                || t == kinds.rotation)) by {
                if t == kinds.rotation {
                    assert(changes[i as int].0 == kinds.rotation);
                }
                if changes_type(changes, i + 1, kinds.rotation, kinds.aabb) && t != kinds.rotation {
                    let j = choose|j: int| 0 <= j < i + 1 && (#[trigger] changes[j]).0 == kinds.rotation;
                    assert(j != i);
                }
            }
            assert(changes_type(changes, i + 1, kinds.scale, kinds.aabb) == (changes_type(changes, i as int, kinds.scale, kinds.aabb)
                || t == kinds.scale)) by {
                if t == kinds.scale {
                    assert(changes[i as int].0 == kinds.scale);
                }
                if changes_type(changes, i + 1, kinds.scale, kinds.aabb) && t != kinds.scale {
                    let j = choose|j: int| 0 <= j < i + 1 && (#[trigger] changes[j]).0 == kinds.scale;
                    assert(j != i);
                }
            }
        }
        i = i + 1;
    }
    let ghost n = changes.len() as int;
    assert(i == n);
    assert(position_changed == changes_type(changes, n, kinds.position, kinds.aabb));
    if position_changed && !rotation_changed && !scale_changed {
        if !tracking.kinematics_changed.contains(e) {
            tracking.only_translation_changed.insert(e);
        }
    } else if position_changed || rotation_changed || scale_changed {
        tracking.kinematics_changed.insert(e);
        tracking.only_translation_changed.remove(e);
    }
    assert((tracking.kinematics_changed@, tracking.only_translation_changed@) == tracked_movement(
        old(tracking).kinematics_changed@,
        old(tracking).only_translation_changed@,
        e,
        changes_type(changes, n, kinds.position, kinds.aabb),
        changes_type(changes, n, kinds.rotation, kinds.aabb),
        changes_type(changes, n, kinds.scale, kinds.aabb),
    ));
}

/// One change of an entity that concerns only the entity-component store.
pub enum StoreChange {
    AddOwnedEntity(EntityId, EntityId),
    AddReferencedEntity(EntityId, EntityIdRead),
    AddSortableComponent(EntityId, TypeIdentifier),
    RemoveSortableComponent(EntityId),
    ModifyRequest(EntityChangeRequest),
    RemoveComponent((EntityId, TypeIdentifier)),
    RemoveOwnedEntity(EntityId, EntityId),
    RemoveReferencedEntity(EntityId, EntityIdRead),
    DeleteRequest(EntityId),
}

/// The store can take the change: a request writes registered components of the right size
/// (or removes them) on an entity of the store, a removal names an entity of the store, and a
/// deletion names an entity of the store whose model component holds a model with an
/// instance to remove.
pub open spec fn store_change_ready(
    ecs: &ECS,
    models: &ModelBankOwner,
    change: &StoreChange,
    kinds: &KinematicTypes,
    model_type: TypeIdentifier,
) -> bool {
    match *change {
        StoreChange::ModifyRequest(r) => changes_writable(ecs, &r, kinds.aabb),
        StoreChange::RemoveComponent((e, t)) => ecs.is_registered(t) ==> e.instance() < ecs.num_entities(),
        StoreChange::DeleteRequest(e) => {
            &&& e.instance() < ecs.num_entities()
            &&& entity_model(ecs, e, model_type) matches Some(id) && models.can_remove_instance(id)
        },
        _ => true,
    }
}

/// The tracking sets are the same.
pub open spec fn same_tracking(a: ChangeTracking, b: ChangeTracking) -> bool {
    &&& a.kinematics_changed@ == b.kinematics_changed@
    &&& a.only_translation_changed@ == b.only_translation_changed@
    &&& a.deleted@ == b.deleted@
}

/// What one change does to the store, to the models and to the tracking of the frame's
/// changes: only a deletion touches the models, removing an instance of the entity's model.
pub open spec fn store_change_applied(
    pre: ECS,
    post: ECS,
    pre_t: ChangeTracking,
    post_t: ChangeTracking,
    pre_m: ModelBankOwner,
    post_m: ModelBankOwner,
    change: StoreChange,
    kinds: KinematicTypes,
    model_type: TypeIdentifier,
) -> bool {
    &&& match change {
        StoreChange::DeleteRequest(e) => match entity_model(&pre, e, model_type) {
            Some(id) => ModelBankOwner::instance_removed(pre_m, post_m, id),
            None => false,
        },
        _ => post_m == pre_m,
    }
    &&& match change {
        StoreChange::AddOwnedEntity(owner, other) => {
            &&& post.owned() == lookup_add(pre.owned(), owner.instance() as u64, other.instance())
            &&& post.referenced() == pre.referenced()
            &&& post.type_lookup() == pre.type_lookup()
            &&& post.same_store(&pre)
            &&& post.same_groups(&pre)
            &&& same_tracking(post_t, pre_t)
        },
        StoreChange::AddReferencedEntity(owner, other) => {
            &&& post.referenced() == lookup_add(pre.referenced(), owner.instance() as u64, other.instance())
            &&& post.owned() == pre.owned()
            &&& post.type_lookup() == pre.type_lookup()
            &&& post.same_store(&pre)
            &&& post.same_groups(&pre)
            &&& same_tracking(post_t, pre_t)
        },
        StoreChange::RemoveOwnedEntity(owner, other) => {
            &&& post.owned() == lookup_remove(pre.owned(), owner.instance() as u64, other.instance())
            &&& post.referenced() == pre.referenced()
            &&& post.type_lookup() == pre.type_lookup()
            &&& post.same_store(&pre)
            &&& post.same_groups(&pre)
            &&& same_tracking(post_t, pre_t)
        },
        StoreChange::RemoveReferencedEntity(owner, other) => {
            &&& post.referenced() == lookup_remove(pre.referenced(), owner.instance() as u64, other.instance())
            &&& post.owned() == pre.owned()
            &&& post.type_lookup() == pre.type_lookup()
            &&& post.same_store(&pre)
            &&& post.same_groups(&pre)
            &&& same_tracking(post_t, pre_t)
        },
        StoreChange::AddSortableComponent(e, t) => {
            &&& post.same_store(&pre)
            &&& post.same_relations(&pre)
            &&& post.user_entity() == pre.user_entity()
            &&& post.sortable_types() == (if pre.sortable_types().contains(t) {
                pre.sortable_types()
            } else {
                pre.sortable_types().push(t)
            })
            &&& post.sortable_membership().contains_key(e.instance())
            &&& crate::sorted_entities::is_first_position(
                post.sortable_types(),
                t,
                post.sortable_membership()[e.instance()] as int,
            )
            &&& post.sortable_membership().remove(e.instance()) == pre.sortable_membership().remove(e.instance())
            &&& same_tracking(post_t, pre_t)
        },
        StoreChange::RemoveSortableComponent(e) => {
            &&& post.same_store(&pre)
            &&& post.same_relations(&pre)
            &&& post.user_entity() == pre.user_entity()
            &&& post.sortable_types() == pre.sortable_types()
            &&& post.sortable_membership() == pre.sortable_membership().insert(e.instance(), 0usize)
            &&& same_tracking(post_t, pre_t)
        },
        StoreChange::ModifyRequest(r) => request_applied(pre, post, pre_t, post_t, r, kinds),
        StoreChange::RemoveComponent((e, t)) => {
            &&& !pre.is_registered(t) ==> post == pre
            &&& pre.is_registered(t) ==> post.changed_only(&pre, e.instance() as int, pre.type_index(t))
                && !post.has_component(e.instance() as int, pre.type_index(t)) && post.component_values(
                pre.type_index(t),
            ) == pre.component_values(pre.type_index(t)).remove(e.instance())
            &&& same_tracking(post_t, pre_t)
        },
        StoreChange::DeleteRequest(e) => {
            let x = e.instance();
            &&& post_t.kinematics_changed@ == pre_t.kinematics_changed@.remove(x)
            &&& post_t.only_translation_changed@ == pre_t.only_translation_changed@
            &&& post_t.deleted@ == pre_t.deleted@.insert(x)
            &&& pre.free_entities().contains(x as usize) ==> post == pre
            &&& !pre.free_entities().contains(x as usize) ==> {
                &&& post.free_entities() == pre.free_entities().push(x as usize)
                &&& forall|c: int| !(#[trigger] post.has_component(x as int, c))
                &&& forall|e2: int, c: int| e2 != x ==> #[trigger] post.has_component(e2, c) == pre.has_component(e2, c)
                &&& forall|c: int| 0 <= c < pre.component_types().len() ==> #[trigger] post.component_values(c)
                    == pre.component_values(c).remove(x)
                &&& post.component_types() == pre.component_types()
                &&& forall|c: int| 0 <= c < pre.component_types().len() ==> #[trigger] post.component_size(c)
                    == pre.component_size(c)
                &&& post.num_entities() == pre.num_entities()
                &&& post.same_relations(&pre)
                &&& post.same_groups(&pre)
            }
        },
    }
}

/// The first part of adding an entity: the entity is created, starts untracked in the frame's
/// changes, and the model it is to show is looked up by name (`None` where no model has that
/// name).
pub fn start_entity_addition(
    ecs: &mut ECS,
    tracking: &mut ChangeTracking,
    models: &ModelBankOwner,
    model_name: &String,
) -> (r: (EntityId, Option<ModelId>))
    requires
        old(ecs).wf(),
        old(ecs).free_entities().len() == 0 ==> old(ecs).num_entities() < u32::MAX,
    ensures
        final(ecs).wf(),
        final(ecs).created(old(ecs), r.0),
        final(ecs).user_entity() == old(ecs).user_entity(),
        final(tracking).kinematics_changed@ == old(tracking).kinematics_changed@.remove(r.0.instance()),
        final(tracking).only_translation_changed@ == old(tracking).only_translation_changed@.remove(r.0.instance()),
        final(tracking).deleted@ == old(tracking).deleted@.remove(r.0.instance()),
        r.1 == (if models.names().contains_key(model_name@) {
            Some(models.names()[model_name@])
        } else {
            None::<ModelId>
        }),
{
    let entity_id = ecs.create_entity();
    tracking.record_new_entity(entity_id.get_entity_instance());
    (entity_id, models.lookup_model(model_name))
}

/// The store after the model component (of type `model_type`) and then the entity type of
/// the entity instance `e` were written.
pub open spec fn model_and_type_written(
    pre: ECS,
    post: ECS,
    e: u32,
    model_id: ModelId,
    entity_type: TypeIdentifier,
    model_type: TypeIdentifier,
) -> bool {
    let m = pre.type_index(model_type);
    &&& post.same_layout(&pre)
    &&& post.same_groups(&pre)
    &&& post.owned() == pre.owned()
    &&& post.referenced() == pre.referenced()
    &&& post.type_lookup() == lookup_add(
        match pre.entity_type(e) {
            Some(current) => lookup_remove(pre.type_lookup(), current.t, e),
            None => pre.type_lookup(),
        },
        entity_type.t,
        e,
    )
    &&& post.has_component(e as int, m)
    &&& post.component_values(m) == pre.component_values(m).insert(e, model_id_bytes(model_id))
    &&& post.entity_type(e) == Some(entity_type)
    &&& post.component_values(0) == pre.component_values(0).insert(e, vstd::bytes::spec_u64_to_le_bytes(entity_type.t))
    &&& forall|e2: int, c: int| (e2 != e || (c != 0 && c != m)) ==> #[trigger] post.has_component(e2, c) == pre.has_component(e2, c)
    &&& forall|c: int| 0 < c < pre.component_types().len() && c != m ==> #[trigger] post.component_values(c) == pre.component_values(c)
}

/// The second part of adding an entity, once its initial placement is written: one more
/// instance of its model is registered, its model component and entity type are written, and
/// then the changes of `request`, which are for the new entity, are applied.
pub fn finish_entity_addition(
    ecs: &mut ECS,
    models: &mut ModelBankOwner,
    tracking: &mut ChangeTracking,
    kinds: &KinematicTypes,
    request: &EntityChangeRequest,
    model_id: ModelId,
    entity_type: TypeIdentifier,
    model_type: TypeIdentifier,
)
    requires
        old(ecs).wf(),
        old(models).can_register_instances(model_id, 1),
        old(ecs).is_registered(model_type),
        old(ecs).component_size(old(ecs).type_index(model_type)) == model_id_bytes(model_id).len(),
        old(ecs).entity_type(request.entity_id.instance()) matches Some(current) ==> old(ecs).type_lookup().contains_key(
            current.t,
        ),
        changes_writable(old(ecs), request, kinds.aabb),
    ensures
        final(ecs).wf(),
        ModelBankOwner::instances_registered(*old(models), *final(models), model_id, 1),
        exists|mid: ECS|
            model_and_type_written(*old(ecs), mid, request.entity_id.instance(), model_id, entity_type, model_type)
                && request_applied(mid, *final(ecs), *old(tracking), *final(tracking), *request, *kinds),
{
    models.register_instances(model_id, 1);
    let entity_id = request.entity_id;
    let e = entity_id.get_entity_instance();
    let bytes = model_id.to_component_bytes();
    let ghost m = old(ecs).type_index(model_type);
    proof {
        old(ecs).lemma_entity_type_size();
        assert(m != 0);
    }
    ecs.write_component_serialized(entity_id, model_type, &bytes);
    let ghost written = *ecs;
    assert(written.entity_type(e) == old(ecs).entity_type(e));
    ecs.write_entity_type(entity_id, entity_type);
    let ghost mid = *ecs;
    proof {
        assert(mid.component_values(m) == written.component_values(m));
        assert forall|i: int|
            0 <= i < request.type_id@.len() && (#[trigger] request.type_id@[i]).0 != kinds.aabb implies mid.is_registered(
                request.type_id@[i].0,
            ) && (request.type_id@[i].1 matches Some(v) ==> v.len() == mid.component_size(
                mid.type_index(request.type_id@[i].0),
            )) by {
            let t = request.type_id@[i].0;
            assert(old(ecs).is_registered(t));
            assert(mid.component_types() == old(ecs).component_types());
            assert(mid.is_registered(t));
            assert(mid.type_index(t) == old(ecs).type_index(t));
            assert(0 <= old(ecs).type_index(t) < old(ecs).component_types().len());
        }
        assert(model_and_type_written(*old(ecs), mid, e, model_id, entity_type, model_type));
    }
    apply_entity_change_requests(ecs, request, tracking, kinds);
}

/// Applies one change of an entity to the store. A deletion removes an instance of the model
/// that the entity's model component (of type `model_type`) holds, then records the deletion
/// in the tracking of the frame's changes and removes the entity.
pub fn apply_store_change(
    ecs: &mut ECS,
    change: &StoreChange,
    tracking: &mut ChangeTracking,
    kinds: &KinematicTypes,
    models: &mut ModelBankOwner,
    model_type: TypeIdentifier,
)
    requires
        old(ecs).wf(),
        store_change_ready(old(ecs), old(models), change, kinds, model_type),
    ensures
        final(ecs).wf(),
        store_change_applied(
            *old(ecs),
            *final(ecs),
            *old(tracking),
            *final(tracking),
            *old(models),
            *final(models),
            *change,
            *kinds,
            model_type,
        ),
{
    match change {
        StoreChange::AddOwnedEntity(owner, other) => ecs.add_owned_entity(*owner, *other),
        StoreChange::AddReferencedEntity(owner, other) => ecs.add_referenced_entity(*owner, *other),
        StoreChange::AddSortableComponent(entity_id, type_id) => ecs.write_sortable_component(*entity_id, *type_id),
        StoreChange::RemoveSortableComponent(entity_id) => ecs.remove_sortable_component(*entity_id),
        StoreChange::ModifyRequest(request) => apply_entity_change_requests(ecs, request, tracking, kinds),
        StoreChange::RemoveComponent((entity_id, type_id)) => ecs.remove_component_type_id_internal(*entity_id, *type_id),
        StoreChange::RemoveOwnedEntity(owner, other) => ecs.remove_owned_entity(*owner, *other),
        StoreChange::RemoveReferencedEntity(owner, other) => ecs.remove_referenced_entity(*owner, *other),
        StoreChange::DeleteRequest(entity_id) => {
            let model_id = model_of_entity(ecs, *entity_id, model_type).unwrap();
            models.remove_instance(model_id);
            tracking.record_deletion(entity_id.get_entity_instance());
            ecs.remove_entity(*entity_id);
        },
    }
}

/// Whether every change of the request can be written: see `changes_writable`.
pub fn can_write_changes(ecs: &ECS, request: &EntityChangeRequest, aabb: TypeIdentifier) -> (r: bool)
    requires
        ecs.wf(),
    ensures
        r == changes_writable(ecs, request, aabb),
{
    if request.entity_id.get_entity_instance() as usize >= ecs.number_entities() {
        return false;
    }
    let mut i: usize = 0;
    while i < request.type_id.len()
        invariant
            ecs.wf(),
            i <= request.type_id@.len(),
            request.entity_id.instance() < ecs.num_entities(),
            forall|j: int|
                0 <= j < i && (#[trigger] request.type_id@[j]).0 != aabb ==> ecs.is_registered(request.type_id@[j].0) && (
                request.type_id@[j].1 matches Some(v) ==> v.len() == ecs.component_size(ecs.type_index(request.type_id@[j].0))),
        decreases request.type_id@.len() - i,
    {
        let t = request.type_id[i].0;
        if t != aabb {
            match ecs.index_of(t) {
                None => return false,
                Some(index) => {
                    if let Some(v) = &request.type_id[i].1 {
                        if v.len() != ecs.registered_component(index).get_component_size() {
                            return false;
                        }
                    }
                },
            }
        }
        i = i + 1;
    }
    true
}

/// Whether the store and the model banks can take the change: see `store_change_ready`.
pub fn can_apply_store_change(
    ecs: &ECS,
    models: &ModelBankOwner,
    change: &StoreChange,
    kinds: &KinematicTypes,
    model_type: TypeIdentifier,
) -> (r: bool)
    requires
        ecs.wf(),
    ensures
        r == store_change_ready(ecs, models, change, kinds, model_type),
{
    match change {
        StoreChange::ModifyRequest(request) => can_write_changes(ecs, request, kinds.aabb),
        StoreChange::RemoveComponent((entity_id, type_id)) => {
            ecs.index_of(*type_id).is_none() || (entity_id.get_entity_instance() as usize) < ecs.number_entities()
        },
        StoreChange::DeleteRequest(entity_id) => {
            if entity_id.get_entity_instance() as usize >= ecs.number_entities() {
                return false;
            }
            match model_of_entity(ecs, *entity_id, model_type) {
                None => false,
                Some(model_id) => {
                    if model_id.render_system_index.index >= models.number_model_banks() {
                        return false;
                    }
                    match models.instance_count(model_id) {
                        Some(count) => count > 0,
                        None => false,
                    }
                },
            }
        },
        _ => true,
    }
}

/// The store, the tracking of the frame's changes and the model banks at one point.
pub type ChangeState = (ECS, ChangeTracking, ModelBankOwner);

/// From `states[i]` the store could take `changes[i]`, and applying it gave `states[i + 1]`.
pub open spec fn change_step(
    states: Seq<ChangeState>,
    changes: Seq<StoreChange>,
    i: int,
    kinds: KinematicTypes,
    model_type: TypeIdentifier,
) -> bool {
    &&& states[i].0.wf()
    &&& store_change_ready(&states[i].0, &states[i].2, &changes[i], &kinds, model_type)
    &&& store_change_applied(
        states[i].0,
        states[i + 1].0,
        states[i].1,
        states[i + 1].1,
        states[i].2,
        states[i + 1].2,
        changes[i],
        kinds,
        model_type,
    )
}

/// Each of the first `n` changes was taken in turn, from `states[0]` to `states[n]`.
pub open spec fn changes_applied_in_turn(
    states: Seq<ChangeState>,
    changes: Seq<StoreChange>,
    n: int,
    kinds: KinematicTypes,
    model_type: TypeIdentifier,
) -> bool {
    &&& states.len() == n + 1
    &&& forall|i: int| 0 <= i < n ==> #[trigger] change_step(states, changes, i, kinds, model_type)
}

/// Applying the first `n` changes in turn leads from `pre` to `post`, each change taken by
/// the state it meets.
pub open spec fn first_changes_applied(
    pre: ChangeState,
    post: ChangeState,
    changes: Seq<StoreChange>,
    n: int,
    kinds: KinematicTypes,
    model_type: TypeIdentifier,
) -> bool {
    exists|states: Seq<ChangeState>|
        #[trigger] changes_applied_in_turn(states, changes, n, kinds, model_type) && states[0] == pre && states[n] == post
}

/// Applies a frame's changes in order. Stops at the first change that the store cannot take,
/// answering its position, with the changes before it applied.
pub fn apply_store_changes(
    ecs: &mut ECS,
    changes: &Vec<StoreChange>,
    tracking: &mut ChangeTracking,
    kinds: &KinematicTypes,
    models: &mut ModelBankOwner,
    model_type: TypeIdentifier,
) -> (r: Result<(), usize>)
    requires
        old(ecs).wf(),
    ensures
        final(ecs).wf(),
        first_changes_applied(
            (*old(ecs), *old(tracking), *old(models)),
            (*final(ecs), *final(tracking), *final(models)),
            changes@,
            match r {
                Ok(_) => changes@.len() as int,
                Err(k) => k as int,
            },
            *kinds,
            model_type,
        ),
        r matches Err(k) ==> k < changes@.len() && !store_change_ready(
            &*final(ecs),
            &*final(models),
            &changes@[k as int],
            kinds,
            model_type,
        ),
{
    let ghost mut states: Seq<ChangeState> = seq![(*ecs, *tracking, *models)];
    let mut i: usize = 0;
    while i < changes.len()
        invariant
            ecs.wf(),
            i <= changes@.len(),
            changes_applied_in_turn(states, changes@, i as int, *kinds, model_type),
            states[0] == (*old(ecs), *old(tracking), *old(models)),
            states[i as int] == (*ecs, *tracking, *models),
        decreases changes@.len() - i,
    {
        if !can_apply_store_change(ecs, models, &changes[i], kinds, model_type) {
            assert(changes_applied_in_turn(states, changes@, i as int, *kinds, model_type));
            return Err(i);
        }
        let ghost before = states;
        let ghost pre = (*ecs, *tracking, *models);
        assert(store_change_ready(&pre.0, &pre.2, &changes@[i as int], kinds, model_type));
        apply_store_change(ecs, &changes[i], tracking, kinds, models, model_type);
        proof {
            let post = (*ecs, *tracking, *models);
            assert(store_change_applied(pre.0, post.0, pre.1, post.1, pre.2, post.2, changes@[i as int], *kinds, model_type));
            states = before.push(post);
            assert(states[i as int] == pre);
            assert(states[i + 1] == post);
            assert forall|j: int| 0 <= j < i + 1 implies #[trigger] change_step(states, changes@, j, *kinds, model_type) by {
                if j < i {
                    assert(change_step(before, changes@, j, *kinds, model_type));
                    assert(states[j] == before[j]);
                    assert(states[j + 1] == before[j + 1]);
                } else {
                    assert(states[j] == pre);
                    assert(states[j + 1] == post);
                }
            }
        }
        i = i + 1;
    }
    assert(changes_applied_in_turn(states, changes@, changes@.len() as int, *kinds, model_type));
    Ok(())
}

} // verus!
