use render_engine::components::FindLightType;
use render_engine::entity_id::{EntityId, ForceCreationEntity};
use render_engine::shadow_flow::{LightCandidates, ShadowFlow, ShadowMapDecision, ShadowMapRequest};

fn entity(instance: u32) -> EntityId {
    EntityId::new(instance, ForceCreationEntity)
}

fn candidates(directional: &[u32], nearby_spot: &[u32], visible_spot: &[u32]) -> LightCandidates {
    LightCandidates {
        directional_lights: directional.iter().map(|x| entity(*x)).collect(),
        nearby_point_lights: Vec::new(),
        nearby_spot_lights: nearby_spot.iter().map(|x| entity(*x)).collect(),
        visible_point_lights: Vec::new(),
        visible_spot_lights: visible_spot.iter().map(|x| entity(*x)).collect(),
    }
}

fn request(decision: ShadowMapDecision) -> Option<ShadowMapRequest> {
    match decision {
        ShadowMapDecision::NoNewMapRequired => None,
        ShadowMapDecision::NewMapRequired(q) => Some(q),
    }
}

fn step(flow: &mut ShadowFlow, c: &LightCandidates) -> Option<(u32, FindLightType, usize, Option<usize>)> {
    assert!(flow.can_calculate_shadow_maps());
    request(flow.calculate_shadow_maps(c)).map(|q| (q.light.get_entity_instance(), q.light_type, q.texture_index, q.face))
}

#[test]
fn spot_light_fills_its_six_faces_in_turn() {
    let mut flow = ShadowFlow::new(6);
    let c = candidates(&[], &[5], &[5]);
    // directional lights, then point lights: nothing to do
    assert_eq!(step(&mut flow, &c), None);
    assert_eq!(step(&mut flow, &c), None);
    for face in 0..6 {
        assert_eq!(step(&mut flow, &c), Some((5, FindLightType::Spot, face, Some(face))));
    }
    let uploads: Vec<u32> = flow.upload_indexes().iter().copied().collect();
    assert_eq!(uploads, vec![0, 1, 2, 3, 4, 5]);
    // all six faces are done: back to directional lights, which find no free layer
    assert_eq!(step(&mut flow, &c), None);
    assert_eq!(step(&mut flow, &c), None);
}

#[test]
fn directional_light_takes_a_layer_each_step() {
    let mut flow = ShadowFlow::new(2);
    let c = candidates(&[3], &[], &[]);
    assert_eq!(step(&mut flow, &c), Some((3, FindLightType::Directional, 0, None)));
    assert_eq!(step(&mut flow, &c), Some((3, FindLightType::Directional, 1, None)));
    assert!(!flow.can_calculate_shadow_maps());
}

#[test]
fn lights_no_longer_nearby_give_their_layers_back() {
    let mut flow = ShadowFlow::new(7);
    let near = candidates(&[], &[5], &[5]);
    assert_eq!(step(&mut flow, &near), None);
    assert_eq!(step(&mut flow, &near), None);
    for face in 0..6 {
        assert_eq!(step(&mut flow, &near), Some((5, FindLightType::Spot, face, Some(face))));
    }
    assert_eq!(step(&mut flow, &near), None);
    let away = candidates(&[], &[], &[]);
    assert_eq!(step(&mut flow, &away), None);
    assert_eq!(step(&mut flow, &away), None);
    // the spot search drops light 5; its layers go behind the still free layer 6
    assert_eq!(step(&mut flow, &away), None);
    assert_eq!(step(&mut flow, &away), None);
    assert_eq!(step(&mut flow, &away), None);
    let other = candidates(&[], &[9], &[9]);
    assert_eq!(step(&mut flow, &other), Some((9, FindLightType::Spot, 6, Some(0))));
    assert_eq!(step(&mut flow, &other), Some((9, FindLightType::Spot, 0, Some(1))));
    assert_eq!(step(&mut flow, &other), Some((9, FindLightType::Spot, 1, Some(2))));
}

#[test]
fn nearby_light_out_of_view_is_chosen_when_visible_lights_are_served() {
    let mut flow = ShadowFlow::new(8);
    let c = candidates(&[], &[4, 7], &[4]);
    assert_eq!(step(&mut flow, &c), None);
    assert_eq!(step(&mut flow, &c), None);
    for face in 0..6 {
        assert_eq!(step(&mut flow, &c), Some((4, FindLightType::Spot, face, Some(face))));
    }
    // light 4 is complete; the round robin comes back to spot lights
    assert_eq!(step(&mut flow, &c), None);
    assert_eq!(step(&mut flow, &c), None);
    assert_eq!(step(&mut flow, &c), None);
    assert_eq!(step(&mut flow, &c), Some((7, FindLightType::Spot, 6, Some(0))));
}

#[test]
fn lights_that_hold_maps_are_not_chosen_again() {
    let mut flow = ShadowFlow::new(13);
    let c = candidates(&[], &[4, 7], &[4]);
    assert_eq!(step(&mut flow, &c), None);
    assert_eq!(step(&mut flow, &c), None);
    for face in 0..6 {
        assert_eq!(step(&mut flow, &c), Some((4, FindLightType::Spot, face, Some(face))));
    }
    assert_eq!(step(&mut flow, &c), None);
    assert_eq!(step(&mut flow, &c), None);
    assert_eq!(step(&mut flow, &c), None);
    for face in 0..6 {
        assert_eq!(step(&mut flow, &c), Some((7, FindLightType::Spot, 6 + face, Some(face))));
    }
    // light 7 is complete; both nearby lights hold maps, so the spot search finds none
    assert_eq!(step(&mut flow, &c), None);
    assert_eq!(step(&mut flow, &c), None);
    assert_eq!(step(&mut flow, &c), None);
    assert_eq!(step(&mut flow, &c), None);
    // the round robin comes back to spot lights with the last layer still free
    assert_eq!(step(&mut flow, &c), None);
    assert_eq!(step(&mut flow, &c), None);
    assert_eq!(step(&mut flow, &c), None);
    let uploads: Vec<u32> = flow.upload_indexes().iter().copied().collect();
    assert_eq!(uploads, (0..12).collect::<Vec<u32>>());
}
