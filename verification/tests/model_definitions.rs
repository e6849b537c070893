use render_engine::model_definitions::{
    ModelId, RenderSystemIndex, TextureLocation, DIFFUSE_INDEX, DISSOLVE_INDEX, NORMAL_INDEX, SHININESS_INDEX,
    SPECULAR_INDEX,
};

/// Finds the array index and index offset for one of the TextureLocation's words.
/// The returned values are (current_array_index, current_index_offset, other_array_index, other_index_offset).
fn unpack_texture(array_value: u32, texture_value: u128) -> (u32, u32, u32, u32) {
    if texture_value % 2 == 0 {
        ((array_value & 0xFC00) >> 10, array_value & 0x3FF, array_value >> 26, (array_value >> 16) & 0x3FF)
    } else {
        (array_value >> 26, (array_value >> 16) & 0x3FF, (array_value & 0xFC00) >> 10, array_value & 0x3FF)
    }
}

fn check_first_default_index_value(texture_location: &TextureLocation) {
    let (array_index, index_offset, _, _) = unpack_texture(texture_location.data()[0], DIFFUSE_INDEX);
    assert_eq!(array_index, 0);
    assert_eq!(index_offset, 0);

    let (array_index, index_offset, _, _) = unpack_texture(texture_location.data()[0], DISSOLVE_INDEX);
    assert_eq!(array_index, 0);
    assert_eq!(index_offset, 1);
}

fn check_second_default_index_value(texture_location: &TextureLocation) {
    let (array_index, index_offset, _, _) = unpack_texture(texture_location.data()[1], NORMAL_INDEX);
    assert_eq!(array_index, 0);
    assert_eq!(index_offset, 2);

    let (array_index, index_offset, _, _) = unpack_texture(texture_location.data()[1], SHININESS_INDEX);
    assert_eq!(array_index, 0);
    assert_eq!(index_offset, 3);
}

fn check_third_default_index_value(texture_location: &TextureLocation) {
    let (array_index, index_offset, _, _) = unpack_texture(texture_location.data()[2], SPECULAR_INDEX);
    assert_eq!(array_index, 0);
    assert_eq!(index_offset, 4);
}

#[test]
fn pack_unpack_diffuse_texture() {
    let mut texture_location = TextureLocation::place_holder();
    texture_location.write_diffuse(5, 567);

    check_second_default_index_value(&texture_location);
    check_third_default_index_value(&texture_location);

    let (array_index, index_offset, other_array, other_index) =
        unpack_texture(texture_location.data()[0], DIFFUSE_INDEX);

    assert_eq!(array_index, 5);
    assert_eq!(index_offset, 567);
    assert_eq!(other_array, 0);
    assert_eq!(other_index, 1);
}

#[test]
fn pack_unpack_dissolve_texture() {
    let mut texture_location = TextureLocation::place_holder();
    texture_location.write_dissolve(43, 12);

    check_second_default_index_value(&texture_location);
    check_third_default_index_value(&texture_location);

    let (array_index, index_offset, other_array, other_index) =
        unpack_texture(texture_location.data()[0], DISSOLVE_INDEX);

    assert_eq!(array_index, 43);
    assert_eq!(index_offset, 12);
    assert_eq!(other_array, 0);
    assert_eq!(other_index, 0);
}

#[test]
fn pack_unpack_normal_texture() {
    let mut texture_location = TextureLocation::place_holder();
    texture_location.write_normal(1, 879);

    check_first_default_index_value(&texture_location);
    check_third_default_index_value(&texture_location);

    let (array_index, index_offset, other_array, other_index) =
        unpack_texture(texture_location.data()[1], NORMAL_INDEX);

    assert_eq!(array_index, 1);
    assert_eq!(index_offset, 879);
    assert_eq!(other_array, 0);
    assert_eq!(other_index, 3);
}

#[test]
fn pack_unpack_shininess_texture() {
    let mut texture_location = TextureLocation::place_holder();
    texture_location.write_shininess(0, 1);

    check_first_default_index_value(&texture_location);
    check_third_default_index_value(&texture_location);

    let (array_index, index_offset, other_array, other_index) =
        unpack_texture(texture_location.data()[1], SHININESS_INDEX);

    assert_eq!(array_index, 0);
    assert_eq!(index_offset, 1);
    assert_eq!(other_array, 0);
    assert_eq!(other_index, 2);
}

#[test]
fn pack_unpack_specular_texture() {
    let mut texture_location = TextureLocation::place_holder();
    texture_location.write_specular(34, 5);

    check_first_default_index_value(&texture_location);
    check_second_default_index_value(&texture_location);

    let (array_index, index_offset, other_array, other_index) =
        unpack_texture(texture_location.data()[2], SPECULAR_INDEX);

    assert_eq!(array_index, 34);
    assert_eq!(index_offset, 5);
    assert_eq!(other_array, 0);
    assert_eq!(other_index, 0);
}

#[test]
fn place_holder_words() {
    let texture_location = TextureLocation::place_holder();
    assert_eq!(texture_location.data(), [0x0001_0000, 0x0003_0002, 0x0000_0004, 0]);
}

#[test]
fn rewriting_a_texture_replaces_its_location() {
    let mut texture_location = TextureLocation::place_holder();
    texture_location.write_normal(63, 1023);
    texture_location.write_normal(2, 7);
    let (array_index, index_offset, other_array, other_index) =
        unpack_texture(texture_location.data()[1], NORMAL_INDEX);
    assert_eq!((array_index, index_offset, other_array, other_index), (2, 7, 0, 3));
}

#[test]
fn out_of_range_array_index_spills_into_next_texture() {
    // 64 does not fit the 6 bits of an array index; the write is not masked.
    let mut texture_location = TextureLocation::place_holder();
    texture_location.write_dissolve(0, 0);
    texture_location.write_diffuse(64, 0);
    let (array_index, index_offset, other_array, other_index) =
        unpack_texture(texture_location.data()[0], DIFFUSE_INDEX);
    assert_eq!((array_index, index_offset), (0, 0));
    assert_eq!(other_array, 0);
    assert_eq!(other_index, 1);
}

#[test]
fn level_of_view_is_stored_in_high_bits() {
    let mut index: u32 = 12;
    ModelId::apply_level_of_view(&mut index, 3);
    assert_eq!(index, 12 | (3 << 25));

    let mut index: u32 = 12;
    ModelId::apply_level_of_view(&mut index, 100);
    assert_eq!(index, 12 | (7 << 25));
}

#[test]
fn level_of_view_adjusted_model_index() {
    let id = ModelId::new(5, RenderSystemIndex { index: 2 });
    let adjusted = ModelId::level_of_view_adjusted_model_index(id, Some(2));
    assert_eq!(adjusted.model_index, 5 | (2 << 25));
    assert_eq!(adjusted.render_system_index, RenderSystemIndex { index: 2 });

    let adjusted = ModelId::level_of_view_adjusted_model_index(id, None);
    assert_eq!(adjusted.model_index, 5 | (7 << 25));
}
