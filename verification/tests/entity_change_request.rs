use render_engine::ecs::ECS;
use render_engine::entity_change_request::{
    apply_entity_change_requests, apply_store_change, apply_store_changes, can_apply_store_change, finish_entity_addition,
    start_entity_addition, ChangeTracking, EntityChangeRequest, KinematicTypes, StoreChange,
};
use render_engine::entity_id::EntityIdRead;
use render_engine::model_definitions::{ModelId, RenderSystemIndex};
use render_engine::model_storage::ModelBankOwner;
use render_engine::type_identifier::TypeIdentifier;

struct Position;
struct Rotation;
struct Scale;
struct Aabb;
struct Health;

fn kinds() -> KinematicTypes {
    KinematicTypes {
        aabb: TypeIdentifier::of::<Aabb>(),
        position: TypeIdentifier::of::<Position>(),
        rotation: TypeIdentifier::of::<Rotation>(),
        scale: TypeIdentifier::of::<Scale>(),
    }
}

fn setup() -> ECS {
    let mut ecs = ECS::new();
    for t in [
        TypeIdentifier::of::<Position>(),
        TypeIdentifier::of::<Rotation>(),
        TypeIdentifier::of::<Scale>(),
        TypeIdentifier::of::<Aabb>(),
        TypeIdentifier::of::<Health>(),
    ] {
        ecs.register_type(t, 4);
    }
    ecs
}

#[test]
fn change_request_counts_changes() {
    let mut ecs = setup();
    let entity = ecs.create_entity();
    let mut request = EntityChangeRequest::new(entity);
    assert_eq!(0, request.number_changes());
    request.add_new_change(TypeIdentifier::of::<Health>(), 7u32.to_le_bytes().to_vec());
    request.remove_component::<Health>();
    assert_eq!(2, request.number_changes());
    assert_eq!(TypeIdentifier::of::<Health>(), request.type_id[1].0);
    assert!(request.type_id[1].1.is_none());
    request.apply_changes(&mut ecs, 0);
    assert_eq!(Some(7u32.to_le_bytes().to_vec()), ecs.get_copy(entity, TypeIdentifier::of::<Health>()));
}

#[test]
fn only_translation_is_tracked() {
    let mut ecs = setup();
    let entity = ecs.create_entity();
    let mut request = EntityChangeRequest::new(entity);
    request.add_new_change(TypeIdentifier::of::<Position>(), 1u32.to_le_bytes().to_vec());
    request.add_new_change(TypeIdentifier::of::<Position>(), 2u32.to_le_bytes().to_vec());
    let mut tracking = ChangeTracking::new();
    apply_entity_change_requests(&mut ecs, &request, &mut tracking, &kinds());
    let e = entity.get_entity_instance();
    assert!(tracking.only_translation_changed.contains(e));
    assert!(!tracking.kinematics_changed.contains(e));
    assert_eq!(Some(2u32.to_le_bytes().to_vec()), ecs.get_copy(entity, TypeIdentifier::of::<Position>()));
}

#[test]
fn rotation_makes_kinematic_change() {
    let mut ecs = setup();
    let entity = ecs.create_entity();
    let e = entity.get_entity_instance();
    let mut tracking = ChangeTracking::new();

    let mut request = EntityChangeRequest::new(entity);
    request.add_new_change(TypeIdentifier::of::<Position>(), 1u32.to_le_bytes().to_vec());
    apply_entity_change_requests(&mut ecs, &request, &mut tracking, &kinds());
    assert!(tracking.only_translation_changed.contains(e));

    let mut request = EntityChangeRequest::new(entity);
    request.add_new_change(TypeIdentifier::of::<Rotation>(), 5u32.to_le_bytes().to_vec());
    apply_entity_change_requests(&mut ecs, &request, &mut tracking, &kinds());
    assert!(tracking.kinematics_changed.contains(e));
    assert!(!tracking.only_translation_changed.contains(e));

    // A later translation of an entity whose kinematics changed stays a kinematic change.
    let mut request = EntityChangeRequest::new(entity);
    request.add_new_change(TypeIdentifier::of::<Position>(), 3u32.to_le_bytes().to_vec());
    apply_entity_change_requests(&mut ecs, &request, &mut tracking, &kinds());
    assert!(tracking.kinematics_changed.contains(e));
    assert!(!tracking.only_translation_changed.contains(e));
}

#[test]
fn bounding_volume_changes_are_skipped() {
    let mut ecs = setup();
    let entity = ecs.create_entity();
    let mut request = EntityChangeRequest::new(entity);
    request.add_new_change(TypeIdentifier::of::<Aabb>(), 9u32.to_le_bytes().to_vec());
    request.add_new_change(TypeIdentifier::of::<Health>(), 4u32.to_le_bytes().to_vec());
    let mut tracking = ChangeTracking::new();
    apply_entity_change_requests(&mut ecs, &request, &mut tracking, &kinds());
    assert_eq!(None, ecs.get_copy(entity, TypeIdentifier::of::<Aabb>()));
    assert_eq!(Some(4u32.to_le_bytes().to_vec()), ecs.get_copy(entity, TypeIdentifier::of::<Health>()));
    assert_eq!(0, tracking.kinematics_changed.to_vec().len());
    assert_eq!(0, tracking.only_translation_changed.to_vec().len());
}

#[test]
fn deleted_entities_are_not_changed() {
    let mut ecs = setup();
    let entity = ecs.create_entity();
    let mut tracking = ChangeTracking::new();
    tracking.record_deletion(entity.get_entity_instance());
    let mut request = EntityChangeRequest::new(entity);
    request.add_new_change(TypeIdentifier::of::<Position>(), 1u32.to_le_bytes().to_vec());
    apply_entity_change_requests(&mut ecs, &request, &mut tracking, &kinds());
    assert_eq!(None, ecs.get_copy(entity, TypeIdentifier::of::<Position>()));
    assert!(!tracking.only_translation_changed.contains(entity.get_entity_instance()));
    tracking.record_new_entity(entity.get_entity_instance());
    assert!(!tracking.deleted.contains(entity.get_entity_instance()));
}

#[test]
fn store_changes_apply_in_turn() {
    let mut ecs = setup();
    let model_type = TypeIdentifier::of::<ModelId>();
    ecs.register_type(model_type, 12);
    let mut models = ModelBankOwner::new(1);
    let (model, _) = models.register_model(String::from("crate"), RenderSystemIndex { index: 0 }, 1);
    models.register_instances(model, 2);
    let owner = ecs.create_entity();
    let other = ecs.create_entity();
    ecs.write_component_serialized(other, model_type, &model.to_component_bytes());
    let mut tracking = ChangeTracking::new();
    let health = TypeIdentifier::of::<Health>();
    let mut request = EntityChangeRequest::new(other);
    request.add_new_change(health, 9u32.to_le_bytes().to_vec());
    request.add_new_change(TypeIdentifier::of::<Rotation>(), 1u32.to_le_bytes().to_vec());
    let changes = vec![
        StoreChange::AddOwnedEntity(owner, other),
        StoreChange::AddReferencedEntity(owner, EntityIdRead::new(other)),
        StoreChange::ModifyRequest(request),
        StoreChange::AddSortableComponent(other, health),
    ];
    for change in &changes {
        apply_store_change(&mut ecs, change, &mut tracking, &kinds(), &mut models, model_type);
    }
    assert_eq!(ecs.get_owned_entities(owner).map(|s| s.to_vec().len()), Some(1));
    assert_eq!(ecs.get_copy(other, health), Some(9u32.to_le_bytes().to_vec()));
    assert!(tracking.kinematics_changed.contains(other.get_entity_instance()));
    let groups = ecs.get_entities_with_sortable();
    assert!(groups[groups.len() - 1].contains(other.get_entity_instance()));
    assert_eq!(models.instance_count(model), Some(2));

    let removals = vec![
        StoreChange::RemoveComponent((other, health)),
        StoreChange::RemoveOwnedEntity(owner, other),
        StoreChange::RemoveSortableComponent(other),
        StoreChange::DeleteRequest(other),
    ];
    for change in &removals {
        apply_store_change(&mut ecs, change, &mut tracking, &kinds(), &mut models, model_type);
    }
    assert_eq!(ecs.get_copy(other, health), None);
    assert!(tracking.deleted.contains(other.get_entity_instance()));
    assert!(!tracking.kinematics_changed.contains(other.get_entity_instance()));
    assert!(ecs.is_entity_empty(other));
    assert_eq!(models.instance_count(model), Some(1));
}

#[test]
fn deleting_the_last_instance_frees_the_model_id() {
    let mut ecs = setup();
    let model_type = TypeIdentifier::of::<ModelId>();
    ecs.register_type(model_type, 12);
    let mut models = ModelBankOwner::new(1);
    let (model, _) = models.register_model(String::from("rock"), RenderSystemIndex { index: 0 }, 1);
    models.register_instances(model, 1);
    let entity = ecs.create_entity();
    ecs.write_component_serialized(entity, model_type, &model.to_component_bytes());
    let mut tracking = ChangeTracking::new();
    apply_store_change(&mut ecs, &StoreChange::DeleteRequest(entity), &mut tracking, &kinds(), &mut models, model_type);
    assert_eq!(models.instance_count(model), None);
    let (next, _) = models.register_model(String::from("tree"), RenderSystemIndex { index: 0 }, 1);
    assert_eq!(next, model);
}

#[test]
fn model_ids_round_trip_through_component_bytes() {
    let id = ModelId::new(0x0102_0304, RenderSystemIndex { index: 7 });
    let bytes = id.to_component_bytes();
    assert_eq!(bytes, vec![4, 3, 2, 1, 7, 0, 0, 0, 0, 0, 0, 0]);
    assert_eq!(ModelId::from_component_bytes(&bytes), Some(id));
    assert_eq!(ModelId::from_component_bytes(&vec![1, 2, 3]), None);
}

#[test]
fn removal_request_removes_the_component() {
    let mut ecs = setup();
    let entity = ecs.create_entity();
    let health = TypeIdentifier::of::<Health>();
    let mut request = EntityChangeRequest::new(entity);
    request.add_new_change(health, 7u32.to_le_bytes().to_vec());
    request.remove_component::<Health>();
    request.apply_changes(&mut ecs, 0);
    assert_eq!(Some(7u32.to_le_bytes().to_vec()), ecs.get_copy(entity, health));
    request.apply_changes(&mut ecs, 1);
    assert_eq!(None, ecs.get_copy(entity, health));
    assert_eq!(ecs.check_component_written(entity, health), Ok(false));

    let mut tracking = ChangeTracking::new();
    let mut write_then_remove = EntityChangeRequest::new(entity);
    write_then_remove.add_new_change(health, 3u32.to_le_bytes().to_vec());
    write_then_remove.remove_component::<Health>();
    apply_entity_change_requests(&mut ecs, &write_then_remove, &mut tracking, &kinds());
    assert_eq!(None, ecs.get_copy(entity, health));
}

#[test]
fn zero_sized_change_writes_the_marker() {
    struct Marker;
    let marker = TypeIdentifier::of::<Marker>();
    let mut ecs = setup();
    ecs.register_type(marker, 0);
    let entity = ecs.create_entity();
    let mut request = EntityChangeRequest::new(entity);
    request.add_new_change(marker, Vec::new());
    request.apply_changes(&mut ecs, 0);
    assert_eq!(ecs.check_component_written(entity, marker), Ok(true));
    assert_eq!(ecs.get_copy(entity, marker), Some(Vec::new()));
    let mut removal = EntityChangeRequest::new(entity);
    removal.remove_component::<Marker>();
    removal.apply_changes(&mut ecs, 0);
    assert_eq!(ecs.check_component_written(entity, marker), Ok(false));
}

#[test]
fn adding_an_entity_registers_its_model_and_applies_its_changes() {
    let mut ecs = setup();
    let model_type = TypeIdentifier::of::<ModelId>();
    ecs.register_type(model_type, 12);
    let mut models = ModelBankOwner::new(1);
    let (model, _) = models.register_model(String::from("crate"), RenderSystemIndex { index: 0 }, 1);
    let before = models.instance_count(model).unwrap();
    let mut tracking = ChangeTracking::new();
    let (entity, found) = start_entity_addition(&mut ecs, &mut tracking, &models, &String::from("crate"));
    assert_eq!(found, Some(model));
    assert!(ecs.is_entity_empty(entity));
    let position = TypeIdentifier::of::<Position>();
    ecs.write_component_serialized(entity, position, &5u32.to_le_bytes().to_vec());
    let health = TypeIdentifier::of::<Health>();
    let mut request = EntityChangeRequest::new(entity);
    request.add_new_change(health, 9u32.to_le_bytes().to_vec());
    request.add_new_change(position, 6u32.to_le_bytes().to_vec());
    struct Crate;
    let entity_type = TypeIdentifier::of::<Crate>();
    finish_entity_addition(&mut ecs, &mut models, &mut tracking, &kinds(), &request, model, entity_type, model_type);
    assert_eq!(models.instance_count(model), Some(before + 1));
    assert_eq!(ecs.get_copy(entity, model_type), Some(model.to_component_bytes()));
    assert_eq!(ecs.get_entity_type(entity), Some(entity_type));
    assert_eq!(ecs.get_copy(entity, health), Some(9u32.to_le_bytes().to_vec()));
    assert_eq!(ecs.get_copy(entity, position), Some(6u32.to_le_bytes().to_vec()));
    assert!(tracking.only_translation_changed.contains(entity.get_entity_instance()));
}

#[test]
fn adding_an_entity_of_an_unknown_model_finds_no_model() {
    let mut ecs = setup();
    let models = ModelBankOwner::new(1);
    let mut tracking = ChangeTracking::new();
    tracking.deleted.insert(0);
    let (entity, found) = start_entity_addition(&mut ecs, &mut tracking, &models, &String::from("missing"));
    assert_eq!(found, None);
    assert_eq!(entity.get_entity_instance(), 0);
    assert!(!tracking.deleted.contains(0));
}

#[test]
fn a_frame_of_changes_applies_in_order() {
    let mut ecs = setup();
    let model_type = TypeIdentifier::of::<ModelId>();
    ecs.register_type(model_type, 12);
    let mut models = ModelBankOwner::new(1);
    let entity = ecs.create_entity();
    let health = TypeIdentifier::of::<Health>();
    let mut first = EntityChangeRequest::new(entity);
    first.add_new_change(health, 1u32.to_le_bytes().to_vec());
    let mut second = EntityChangeRequest::new(entity);
    second.add_new_change(health, 2u32.to_le_bytes().to_vec());
    let changes = vec![StoreChange::ModifyRequest(first), StoreChange::ModifyRequest(second)];
    let mut tracking = ChangeTracking::new();
    assert_eq!(apply_store_changes(&mut ecs, &changes, &mut tracking, &kinds(), &mut models, model_type), Ok(()));
    assert_eq!(ecs.get_copy(entity, health), Some(2u32.to_le_bytes().to_vec()));
}

#[test]
fn a_frame_of_changes_stops_at_a_change_the_store_cannot_take() {
    let mut ecs = setup();
    let model_type = TypeIdentifier::of::<ModelId>();
    ecs.register_type(model_type, 12);
    let mut models = ModelBankOwner::new(1);
    let entity = ecs.create_entity();
    let health = TypeIdentifier::of::<Health>();
    let mut first = EntityChangeRequest::new(entity);
    first.add_new_change(health, 1u32.to_le_bytes().to_vec());
    let mut wrong_size = EntityChangeRequest::new(entity);
    wrong_size.add_new_change(health, vec![1, 2]);
    let mut third = EntityChangeRequest::new(entity);
    third.add_new_change(health, 3u32.to_le_bytes().to_vec());
    let changes = vec![
        StoreChange::ModifyRequest(first),
        StoreChange::ModifyRequest(wrong_size),
        StoreChange::ModifyRequest(third),
    ];
    assert!(!can_apply_store_change(&ecs, &models, &changes[1], &kinds(), model_type));
    assert!(!can_apply_store_change(&ecs, &models, &StoreChange::DeleteRequest(entity), &kinds(), model_type));
    let mut tracking = ChangeTracking::new();
    assert_eq!(apply_store_changes(&mut ecs, &changes, &mut tracking, &kinds(), &mut models, model_type), Err(1));
    assert_eq!(ecs.get_copy(entity, health), Some(1u32.to_le_bytes().to_vec()));
}
