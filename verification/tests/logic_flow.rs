use render_engine::components::{HasMoved, HasRotated};
use render_engine::ecs::ECS;
use render_engine::logic_flow::reset_has_changed_component;
use render_engine::type_identifier::TypeIdentifier;

struct Position;

#[test]
fn markers_of_moved_and_rotated_entities_are_cleared() {
    let moved = TypeIdentifier::of::<HasMoved>();
    let rotated = TypeIdentifier::of::<HasRotated>();
    let position = TypeIdentifier::of::<Position>();
    let mut ecs = ECS::new();
    ecs.register_type(moved, 0);
    ecs.register_type(rotated, 0);
    ecs.register_type(position, 4);
    let a = ecs.create_entity();
    let b = ecs.create_entity();
    ecs.write_component_serialized(a, moved, &Vec::new());
    ecs.write_component_serialized(b, moved, &Vec::new());
    ecs.write_component_serialized(b, rotated, &Vec::new());
    ecs.write_component_serialized(a, position, &vec![1, 2, 3, 4]);
    assert_eq!(ecs.get_indexes_for_components(&[moved]), vec![a, b]);

    reset_has_changed_component(&mut ecs, moved, rotated);

    assert!(ecs.get_indexes_for_components(&[moved]).is_empty());
    assert!(ecs.get_indexes_for_components(&[rotated]).is_empty());
    assert_eq!(ecs.check_component_written(a, moved), Ok(false));
    assert_eq!(ecs.check_component_written(b, rotated), Ok(false));
    assert_eq!(ecs.get_copy(a, position), Some(vec![1, 2, 3, 4]));
}
