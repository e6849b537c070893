use render_engine::ecs::{calculate_byte_bit_offset, num_bytes_for_components, ECS};
use render_engine::entity_id::{EntityId, EntityIdRead, ForceCreationEntity};
use render_engine::type_identifier::TypeIdentifier;
use std::collections::BTreeSet;

struct Position;
struct Velocity;
struct Acceleration;
struct Marker;
struct Marker2;

fn id<T: 'static>() -> TypeIdentifier {
    TypeIdentifier::of::<T>()
}

fn bytes(value: u32) -> Vec<u8> {
    value.to_le_bytes().to_vec()
}

fn value_at(ecs: &ECS, component_index: usize, index: usize) -> u32 {
    let instances = ecs.registered_component(component_index).instances();
    let start = index * 4;
    u32::from_le_bytes([instances[start], instances[start + 1], instances[start + 2], instances[start + 3]])
}

fn check_getters_some(ecs: &ECS, entity_id: EntityId, type_id: TypeIdentifier, value: u32) {
    assert_eq!(Some(bytes(value)), ecs.get_copy(entity_id, type_id));
}

fn check_getters_none(ecs: &ECS, entity_id: EntityId, type_id: TypeIdentifier) {
    assert_eq!(None, ecs.get_copy(entity_id, type_id));
}

fn register_u32(ecs: &mut ECS, type_id: TypeIdentifier) {
    ecs.register_type(type_id, 4);
}

#[test]
fn register_write_component() {
    let mut ecs = ECS::new();
    register_u32(&mut ecs, id::<Position>());
    register_u32(&mut ecs, id::<Velocity>());

    let position_entity = ecs.create_entity();
    let velocity_entity = ecs.create_entity();

    ecs.write_component_serialized(position_entity, id::<Position>(), &bytes(3));
    ecs.write_component_serialized(velocity_entity, id::<Velocity>(), &bytes(5));

    check_getters_some(&ecs, position_entity, id::<Position>(), 3);
    check_getters_none(&ecs, position_entity, id::<Velocity>());

    ecs.remove_entity(position_entity);

    check_getters_none(&ecs, position_entity, id::<Position>());
    check_getters_none(&ecs, position_entity, id::<Velocity>());
}

#[test]
fn internal_representation_one_component() {
    let mut ecs = ECS::new();
    register_u32(&mut ecs, id::<Position>());

    let first_entity = ecs.create_entity();
    let second_entity = ecs.create_entity();
    ecs.write_component_serialized(first_entity, id::<Position>(), &bytes(3));
    ecs.write_component_serialized(second_entity, id::<Position>(), &bytes(2));

    assert_eq!(3, value_at(&ecs, 1, 0));
    assert_eq!(2, value_at(&ecs, 1, 1));

    // The third entity's component is written in the removed entity's space.
    let third_entity = ecs.create_entity();
    ecs.remove_entity(first_entity);

    assert_eq!(0, ecs.registered_component(1).free_space()[0]);
    assert_eq!(1, ecs.registered_component(1).number_written());

    ecs.write_component_serialized(third_entity, id::<Position>(), &bytes(1));

    assert_eq!(1, value_at(&ecs, 1, 0));
    assert_eq!(2, value_at(&ecs, 1, 1));

    // Writing a component to the same entity twice overwrites the first value.
    ecs.write_component_serialized(third_entity, id::<Position>(), &bytes(5));

    assert_eq!(5, value_at(&ecs, 1, 0));
    assert_eq!(2, value_at(&ecs, 1, 1));
}

#[test]
fn check_component_written() {
    let mut ecs = ECS::new();

    register_u32(&mut ecs, id::<Position>());

    let entity = ecs.create_entity();

    register_u32(&mut ecs, id::<Velocity>());

    ecs.write_component_serialized(entity, id::<Velocity>(), &bytes(0));

    assert_eq!(Ok(true), ecs.check_component_written(entity, id::<Velocity>()));
    assert_eq!(Ok(false), ecs.check_component_written(entity, id::<Position>()));
    assert_eq!(Err(()), ecs.check_component_written(entity, id::<Acceleration>()));
}

#[test]
fn check_removing_components() {
    let mut ecs = ECS::new();

    register_u32(&mut ecs, id::<Position>());
    register_u32(&mut ecs, id::<Velocity>());
    register_u32(&mut ecs, id::<Acceleration>());

    let entity = ecs.create_entity();

    ecs.write_component_serialized(entity, id::<Position>(), &bytes(0));
    ecs.write_component_serialized(entity, id::<Velocity>(), &bytes(1));
    ecs.write_component_serialized(entity, id::<Acceleration>(), &bytes(3));

    assert_eq!(14, ecs.get_bitset(0)[0]);
    check_getters_some(&ecs, entity, id::<Position>(), 0);
    check_getters_some(&ecs, entity, id::<Velocity>(), 1);
    check_getters_some(&ecs, entity, id::<Acceleration>(), 3);

    ecs.remove_component(entity, id::<Velocity>());

    assert_eq!(10, ecs.get_bitset(0)[0]);
    check_getters_some(&ecs, entity, id::<Position>(), 0);
    check_getters_some(&ecs, entity, id::<Acceleration>(), 3);
    check_getters_none(&ecs, entity, id::<Velocity>());

    ecs.remove_component(entity, id::<Acceleration>());

    assert_eq!(2, ecs.get_bitset(0)[0]);
    check_getters_some(&ecs, entity, id::<Position>(), 0);
    check_getters_none(&ecs, entity, id::<Acceleration>());
    check_getters_none(&ecs, entity, id::<Velocity>());

    ecs.remove_component(entity, id::<Position>());

    assert_eq!(0, ecs.get_bitset(0)[0]);
    check_getters_none(&ecs, entity, id::<Position>());
    check_getters_none(&ecs, entity, id::<Acceleration>());
    check_getters_none(&ecs, entity, id::<Velocity>());
}

#[test]
fn register_write_several_components() {
    let mut ecs = ECS::new();

    register_u32(&mut ecs, id::<Position>());
    register_u32(&mut ecs, id::<Velocity>());

    let entity = ecs.create_entity();

    ecs.write_component_serialized(entity, id::<Position>(), &bytes(1));
    ecs.write_component_serialized(entity, id::<Velocity>(), &bytes(0));

    ecs.remove_entity(entity);

    register_u32(&mut ecs, id::<Acceleration>());

    let entity = ecs.create_entity();

    ecs.write_component_serialized(entity, id::<Acceleration>(), &bytes(0));

    check_getters_some(&ecs, entity, id::<Acceleration>(), 0);
    check_getters_none(&ecs, entity, id::<Position>());
    check_getters_none(&ecs, entity, id::<Velocity>());

    assert_eq!(8, ecs.get_bitset(0)[0]);

    assert_eq!(1, ecs.registered_component(1).free_space().len());
    assert_eq!(0, ecs.registered_component(0).number_written());

    assert_eq!(1, ecs.registered_component(2).free_space().len());
    assert_eq!(0, ecs.registered_component(1).number_written());
}

#[test]
fn check_bitset_values() {
    let mut ecs = ECS::new();

    register_u32(&mut ecs, id::<Position>());
    register_u32(&mut ecs, id::<Velocity>());
    register_u32(&mut ecs, id::<Acceleration>());

    let entity = ecs.create_entity();

    assert_eq!(0, ecs.get_bitset(0)[0]);

    ecs.write_component_serialized(entity, id::<Position>(), &bytes(0));
    assert_eq!(2, ecs.get_bitset(0)[0]);

    ecs.write_component_serialized(entity, id::<Velocity>(), &bytes(0));
    assert_eq!(6, ecs.get_bitset(0)[0]);

    ecs.write_component_serialized(entity, id::<Acceleration>(), &bytes(0));
    assert_eq!(14, ecs.get_bitset(0)[0]);
}

#[test]
fn get_entities_with_components() {
    let mut ecs = ECS::new();

    register_u32(&mut ecs, id::<Position>());
    register_u32(&mut ecs, id::<Velocity>());

    let mut entities = Vec::new();

    for _ in 0..10 {
        entities.push(ecs.create_entity());
    }

    for x in (0..10usize).filter(|x| x % 2 == 0) {
        ecs.write_component_serialized(entities[x], id::<Position>(), &bytes(2));
    }

    for x in (0..10usize).filter(|x| x % 3 == 0) {
        ecs.write_component_serialized(entities[x], id::<Velocity>(), &bytes(2));
    }

    let pos_array = [id::<Position>()];
    let velocity_array = [id::<Velocity>()];
    let pos_velocity_array = [pos_array[0], velocity_array[0]];

    let to_set = |v: Vec<EntityId>| v.into_iter().collect::<BTreeSet<EntityId>>();
    let requested_components_position = to_set(ecs.get_indexes_for_components(&pos_array));
    let requested_components_velocity = to_set(ecs.get_indexes_for_components(&velocity_array));
    let requested_components_both = to_set(ecs.get_indexes_for_components(&pos_velocity_array));

    let mut expected_entities_position = BTreeSet::new();
    expected_entities_position.insert(EntityId::new(0, ForceCreationEntity));
    expected_entities_position.insert(EntityId::new(2, ForceCreationEntity));
    expected_entities_position.insert(EntityId::new(4, ForceCreationEntity));
    expected_entities_position.insert(EntityId::new(6, ForceCreationEntity));
    expected_entities_position.insert(EntityId::new(8, ForceCreationEntity));

    let mut expected_entities_velocity = BTreeSet::new();
    expected_entities_velocity.insert(EntityId::new(0, ForceCreationEntity));
    expected_entities_velocity.insert(EntityId::new(3, ForceCreationEntity));
    expected_entities_velocity.insert(EntityId::new(6, ForceCreationEntity));
    expected_entities_velocity.insert(EntityId::new(9, ForceCreationEntity));

    let mut expected_entities_both = BTreeSet::new();
    expected_entities_both.insert(EntityId::new(0, ForceCreationEntity));
    expected_entities_both.insert(EntityId::new(6, ForceCreationEntity));

    assert_eq!(expected_entities_position, requested_components_position);
    assert_eq!(expected_entities_velocity, requested_components_velocity);
    assert_eq!(expected_entities_both, requested_components_both);
}

#[test]
fn check_marker() {
    let mut ecs = ECS::new();

    let first_entity = ecs.create_entity();
    let second_entity = ecs.create_entity();

    ecs.write_entity_type(first_entity, id::<Marker>());
    ecs.write_entity_type(second_entity, id::<Marker>());

    let first = first_entity.get_entity_instance();
    let second = second_entity.get_entity_instance();
    assert!(ecs.get_entity_type_lookup(id::<Marker>()).unwrap().contains(first));
    assert!(ecs.get_entity_type_lookup(id::<Marker>()).unwrap().contains(second));
    assert!(ecs.get_entity_type_lookup(id::<Marker2>()).is_none());

    assert_eq!(Some(id::<Marker>()), ecs.get_entity_type(first_entity));
    assert_eq!(Some(id::<Marker>()), ecs.get_entity_type(second_entity));

    ecs.remove_entity_type(first_entity);

    assert_eq!(None, ecs.get_entity_type(first_entity));
    assert_eq!(Some(id::<Marker>()), ecs.get_entity_type(second_entity));

    ecs.remove_entity_type(second_entity);

    assert_eq!(None, ecs.get_entity_type(first_entity));
    assert_eq!(None, ecs.get_entity_type(second_entity));

    assert!(ecs.get_entity_type_lookup(id::<Marker>()).is_some());
    assert!(ecs.get_entity_type_lookup(id::<Marker2>()).is_none());

    assert!(ecs.get_entity_type_lookup(id::<Marker>()).unwrap().to_vec().is_empty());
    assert!(ecs.get_entity_type_lookup(id::<Marker2>()).is_none());
}

#[test]
fn smaller_quantity_component_first() {
    let mut ecs = ECS::new();

    register_u32(&mut ecs, id::<Position>());
    register_u32(&mut ecs, id::<Velocity>());

    let entity1 = ecs.create_entity();
    let entity2 = ecs.create_entity();
    let entity3 = ecs.create_entity();

    ecs.write_component_serialized(entity1, id::<Position>(), &bytes(1));

    ecs.write_component_serialized(entity1, id::<Velocity>(), &bytes(1));
    ecs.write_component_serialized(entity2, id::<Velocity>(), &bytes(2));
    ecs.write_component_serialized(entity3, id::<Velocity>(), &bytes(3));

    let mut expected_entities_velocity = BTreeSet::new();
    expected_entities_velocity.insert(entity1);
    expected_entities_velocity.insert(entity2);
    expected_entities_velocity.insert(entity3);

    let velocity_array = [id::<Velocity>()];
    let found: BTreeSet<EntityId> = ecs.get_indexes_for_components(&velocity_array).into_iter().collect();
    assert_eq!(expected_entities_velocity, found);
}

#[test]
fn get_entities_with_maker() {
    let mut ecs = ECS::new();

    let marker_type = id::<Marker>();

    let entity1 = ecs.create_entity();
    ecs.write_entity_type(entity1, marker_type);

    let components_with_markers = ecs.get_entities_with_type(marker_type);
    assert_eq!(1, components_with_markers.len());
    assert_eq!(Some(&entity1), components_with_markers.iter().find(|x| **x == entity1));
}

#[test]
fn remove_entity_twice() {
    let mut ecs = ECS::new();

    let entity = ecs.create_entity();
    ecs.remove_entity(entity);
    ecs.remove_entity(entity);
    let first = ecs.create_entity();
    let second = ecs.create_entity();
    assert_ne!(first, second);
}

#[test]
fn removed_instance_is_reused_last_in_first_out() {
    let mut ecs = ECS::new();
    let a = ecs.create_entity();
    let b = ecs.create_entity();
    ecs.remove_entity(a);
    ecs.remove_entity(b);
    assert_eq!(b, ecs.create_entity());
    assert_eq!(a, ecs.create_entity());
    assert_eq!(2, ecs.create_entity().get_entity_instance());
}

#[test]
fn remove_entity_clears_every_component() {
    let mut ecs = ECS::new();
    let mut types = Vec::new();
    types.push(id::<Position>());
    types.push(id::<Velocity>());
    types.push(id::<Acceleration>());
    for t in &types {
        register_u32(&mut ecs, *t);
    }
    // Fill the first bitset byte so that a component lands in the second byte.
    for k in 0..6u64 {
        register_u32(&mut ecs, TypeIdentifier::from_raw(1000 + k));
    }
    let late = TypeIdentifier::from_raw(1005);
    let entity = ecs.create_entity();
    ecs.write_component_serialized(entity, late, &bytes(9));
    assert_eq!(Ok(true), ecs.check_component_written(entity, late));
    assert!(!ecs.is_entity_empty(entity));
    ecs.remove_entity(entity);
    assert!(ecs.is_entity_empty(entity));
    assert_eq!(None, ecs.get_copy(entity, late));
    let reused = ecs.create_entity();
    assert_eq!(entity, reused);
    assert_eq!(Ok(false), ecs.check_component_written(reused, late));
}

#[test]
fn registering_twice_has_no_effect() {
    let mut ecs = ECS::new();
    register_u32(&mut ecs, id::<Position>());
    register_u32(&mut ecs, id::<Position>());
    assert_eq!(2, ecs.number_registered_types());
}

#[test]
fn index_offset_counts_values() {
    let mut ecs = ECS::new();
    register_u32(&mut ecs, id::<Position>());
    let a = ecs.create_entity();
    let b = ecs.create_entity();
    ecs.write_component_serialized(a, id::<Position>(), &bytes(1));
    ecs.write_component_serialized(b, id::<Position>(), &bytes(2));
    assert_eq!(Some(1), ecs.get_index_offset(b, id::<Position>()));
    assert_eq!(None, ecs.get_index_offset(b, id::<Velocity>()));
}

#[test]
fn owned_and_referenced_entities() {
    let mut ecs = ECS::new();
    let owner = ecs.create_entity();
    let other = ecs.create_entity();
    assert!(ecs.get_owned_entities(owner).is_none());
    ecs.add_owned_entity(owner, other);
    assert!(ecs.get_owned_entities(owner).unwrap().contains(other.get_entity_instance()));
    ecs.remove_owned_entity(owner, other);
    assert!(ecs.get_owned_entities(owner).unwrap().to_vec().is_empty());

    ecs.add_referenced_entity(owner, EntityIdRead::new(other));
    assert_eq!(1, ecs.get_referenced_entities(owner).unwrap().to_vec().len());
    ecs.remove_referenced_entity(owner, EntityIdRead::new(other));
    assert_eq!(0, ecs.get_referenced_entities(owner).unwrap().to_vec().len());
}

#[test]
fn user_entity_is_created_when_first_asked_for() {
    let mut ecs = ECS::new();
    assert_eq!(u32::MAX, ecs.get_user_id_read().get_entity_instance());
    let first = ecs.create_entity();
    let user = ecs.get_user_id();
    assert_ne!(first, user);
    assert_eq!(user, ecs.get_user_id());
    assert_eq!(user.get_entity_instance(), ecs.get_user_id_read().get_entity_instance());
}

#[test]
fn sortable_groups() {
    let mut ecs = ECS::new();
    assert_eq!(4, ecs.number_sortable_components());
    let entity = ecs.create_entity();
    let groups = ecs.get_entities_with_sortable();
    assert!(groups[0].contains(entity.get_entity_instance()));
    ecs.write_sortable_component(entity, id::<Marker>());
    assert_eq!(5, ecs.number_sortable_components());
    let groups = ecs.get_entities_with_sortable();
    assert!(!groups[0].contains(entity.get_entity_instance()));
    assert!(groups[4].contains(entity.get_entity_instance()));
    ecs.remove_sortable_component(entity);
    let groups = ecs.get_entities_with_sortable();
    assert!(groups[0].contains(entity.get_entity_instance()));
    assert!(groups[4].to_vec().is_empty());
}

#[test]
fn bitset_sizes() {
    assert_eq!(4, num_bytes_for_components(32));
    assert_eq!(1, num_bytes_for_components(8));
    assert_eq!(2, num_bytes_for_components(9));
    assert_eq!(0, num_bytes_for_components(0));
    assert_eq!((1, 0), calculate_byte_bit_offset(8));
    assert_eq!((3, 7), calculate_byte_bit_offset(31));
}

#[test]
fn entity_type_read_key() {
    let mut ecs = ECS::new();
    let entity = ecs.create_entity();
    ecs.write_entity_type(entity, id::<Marker2>());
    assert_eq!(Some(id::<Marker2>()), ecs.get_entity_type_read(EntityIdRead::new(entity)));
    assert_eq!(Ok(true), ecs.check_entity_type_written(entity));
    assert_eq!(Some(id::<Marker2>().raw().to_le_bytes().to_vec()), ecs.get_copy_read(EntityIdRead::new(entity), ecs.registered_component(0).get_type_id()));
}

#[test]
fn bitsets_follow_written_and_removed_components() {
    let mut ecs = ECS::new();
    register_u32(&mut ecs, id::<Position>());
    register_u32(&mut ecs, id::<Velocity>());
    register_u32(&mut ecs, id::<Acceleration>());
    let e = ecs.create_entity();
    assert_eq!(e.get_entity_instance(), 0);
    assert_eq!(ecs.get_bitset(0), [0, 0, 0, 0]);
    ecs.write_component_serialized(e, id::<Position>(), &bytes(0));
    assert_eq!(ecs.get_bitset(0)[0], 2);
    ecs.write_component_serialized(e, id::<Velocity>(), &bytes(1));
    assert_eq!(ecs.get_bitset(0)[0], 6);
    ecs.write_component_serialized(e, id::<Acceleration>(), &bytes(3));
    assert_eq!(ecs.get_bitset(0)[0], 14);
    ecs.remove_component(e, id::<Velocity>());
    assert_eq!(ecs.get_bitset(0)[0], 10);
    ecs.remove_component(e, id::<Acceleration>());
    assert_eq!(ecs.get_bitset(0)[0], 2);
    ecs.remove_component(e, id::<Position>());
    assert_eq!(ecs.get_bitset(0)[0], 0);
}

#[test]
fn reused_instance_has_no_components() {
    let mut ecs = ECS::new();
    register_u32(&mut ecs, id::<Position>());
    let e = ecs.create_entity();
    ecs.remove_entity(e);
    // a component written to the removed entity is dropped when its instance is reused
    ecs.write_component_serialized(e, id::<Position>(), &bytes(5));
    let reused = ecs.create_entity();
    assert_eq!(reused.get_entity_instance(), e.get_entity_instance());
    assert_eq!(ecs.get_copy(reused, id::<Position>()), None);
    assert!(ecs.is_entity_empty(reused));
}
