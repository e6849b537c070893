use render_engine::components::{
    append_texture_dir, generate_random_name, user_type_identifier, FindLightType, IndiceInformation,
    MeshRenderingInformation, UserEntity,
};
use render_engine::entity_id::{EntityId, EntityIdRead, ForceCreationEntity};
use render_engine::sorted_entities::EntityComponentOrganizer;
use render_engine::type_identifier::TypeIdentifier;

struct Sun;

#[test]
fn light_types_name_their_sortable_groups() {
    assert_eq!(1, FindLightType::Directional.sortable_index());
    assert_eq!(2, FindLightType::Point.sortable_index());
    assert_eq!(3, FindLightType::Spot.sortable_index());
}

#[test]
fn texture_directory_is_prefixed() {
    let mut texture = "wall.png".to_string();
    append_texture_dir(&mut texture, "assets/");
    assert_eq!("assets/wall.png", texture);
    let mut none = String::new();
    append_texture_dir(&mut none, "assets/");
    assert_eq!("", none);
}

#[test]
fn generated_names_count_up() {
    let mut counter = 0;
    assert_eq!("0", generate_random_name(&mut counter));
    assert_eq!("1", generate_random_name(&mut counter));
    assert_eq!(2, counter);
}

#[test]
fn plain_constructors() {
    let info = IndiceInformation::new(3, 1024);
    assert_eq!((3, 1024), (info.number_buffers, info.buffer_size_bytes));
    let mesh = MeshRenderingInformation::new();
    assert_eq!((0, 0, 0), (mesh.indice_count, mesh.vertex_offset, mesh.indice_offset));
    assert_eq!(user_type_identifier(), TypeIdentifier::of::<UserEntity>());
    assert_ne!(user_type_identifier(), TypeIdentifier::of::<Sun>());
}

#[test]
fn entity_ids() {
    let id = EntityId::new(42, ForceCreationEntity);
    assert_eq!(42, id.get_entity_instance());
    assert_eq!(42, EntityIdRead::new(id).get_entity_instance());
}

#[test]
fn organizer_groups() {
    let sun = TypeIdentifier::of::<Sun>();
    let mut organizer = EntityComponentOrganizer::new(vec![sun]);
    assert_eq!(2, organizer.number_sortable_components());
    let entity = EntityId::new(7, ForceCreationEntity);
    organizer.add_entity(entity, sun);
    let groups = organizer.get_entities_with_sortable_components();
    assert!(groups[1].contains(7));
    assert!(!groups[0].contains(7));
    organizer.add_entity_default_component(entity);
    let groups = organizer.get_entities_with_sortable_components();
    assert!(groups[0].contains(7));
    assert!(!groups[1].contains(7));
    organizer.add_entity(entity, TypeIdentifier::from_raw(99));
    assert_eq!(3, organizer.number_sortable_components());
}

#[test]
fn entities_are_ordered_by_instance() {
    let a = EntityId::new(3, ForceCreationEntity);
    let b = EntityId::new(10, ForceCreationEntity);
    assert!(a < b);
    assert!(!(b < a));
    assert_eq!(a.partial_cmp(&a), Some(std::cmp::Ordering::Equal));
    assert!(EntityIdRead::new(b) > EntityIdRead::new(a));
}
