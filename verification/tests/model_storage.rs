use render_engine::model_definitions::{ModelId, RenderSystemIndex};
use render_engine::model_storage::{ModelBank, ModelBankOwner};

fn system(index: usize) -> RenderSystemIndex {
    RenderSystemIndex { index }
}

#[test]
fn registering_a_model_adds_each_level_of_view() {
    let mut owner = ModelBankOwner::new(2);
    let (base, levels) = owner.register_model(String::from("tree"), system(1), 3);
    assert_eq!(base, ModelId::new(1, system(1)));
    let level_indexes: Vec<u32> = levels.iter().map(|x| x.model_index).collect();
    assert_eq!(level_indexes, vec![1, 1 | (1 << 25), 1 | (2 << 25)]);
    assert_eq!(owner.lookup_model(&String::from("tree")), Some(base));
    assert_eq!(owner.lookup_model(&String::from("rock")), None);
    for id in &levels {
        assert_eq!(owner.instance_count(*id), Some(0));
    }
    assert!(owner.require_reupload_models_user_render_system(1));
    assert!(!owner.require_reupload_models_user_render_system(0));
    assert!(owner.any_models_changed_shadow_perspective());
    owner.clear_user_render_system_upload_flag(1);
    owner.clear_shadow_render_system_upload_flag();
    assert!(!owner.require_reupload_models_user_render_system(1));
    assert!(!owner.any_models_changed_shadow_perspective());
    let (second, _) = owner.register_model(String::from("rock"), system(0), 1);
    assert_eq!(second, ModelId::new(2, system(0)));
}

#[test]
fn removing_the_last_instance_frees_the_model_id() {
    let mut owner = ModelBankOwner::new(1);
    let (base, _) = owner.register_model(String::from("crate"), system(0), 1);
    owner.register_instances(base, 2);
    assert_eq!(owner.instance_count(base), Some(2));
    owner.remove_instance(base);
    assert_eq!(owner.instance_count(base), Some(1));
    owner.clear_shadow_render_system_upload_flag();
    owner.remove_instance(base);
    assert_eq!(owner.instance_count(base), None);
    assert!(owner.any_models_changed_shadow_perspective());
    // the freed ID is handed out again before a new one is made
    let (reused, _) = owner.register_model(String::from("barrel"), system(0), 1);
    assert_eq!(reused, base);
    let (fresh, _) = owner.register_model(String::from("lamp"), system(0), 1);
    assert_eq!(fresh, ModelId::new(2, system(0)));
}

#[test]
fn model_bank_lists_its_models_with_their_instance_counts() {
    let mut bank = ModelBank::new();
    let a = ModelId::new(4, system(0));
    let b = ModelId::new(9, system(0));
    bank.add_model(a);
    bank.add_model(b);
    bank.register_model_instances(b, 5);
    let mut stored = bank.stored_models();
    stored.sort_by_key(|x| x.0.model_index);
    assert_eq!(stored, vec![(a, 0), (b, 5)]);
    assert!(bank.user_render_system_changed());
    assert!(bank.shadow_render_system_changed());
    assert!(!bank.remove_instance(b));
    assert_eq!(bank.instance_count(b), Some(4));
}
