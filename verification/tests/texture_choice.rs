use render_engine::shader_text::TextureFormat;
use render_engine::texture_choice::{least_wasteful_array, unused_space, TextureArraySpace, UnusedSpace};

fn array(width: i32, height: i32, format: TextureFormat, held: i32) -> TextureArraySpace {
    TextureArraySpace { width, height, format, number_textures: 4, number_textures_held: held }
}

#[test]
fn unused_space_is_the_product_of_the_unused_sides() {
    let space = unused_space(&array(512, 256, TextureFormat::RGBA, 1), 500, 200, 4);
    assert_eq!(space, Ok(UnusedSpace { unused_pixels: 12 * 56, widened_channels: false }));
}

#[test]
fn three_channels_in_a_four_channel_array_are_widened() {
    let space = unused_space(&array(64, 64, TextureFormat::RGBA, 0), 64, 60, 3);
    assert_eq!(space, Ok(UnusedSpace { unused_pixels: 0, widened_channels: true }));
}

#[test]
fn a_full_array_takes_no_texture() {
    assert_eq!(unused_space(&array(64, 64, TextureFormat::RGBA, 4), 32, 32, 4), Err(()));
}

#[test]
fn an_array_without_alpha_takes_no_four_channel_texture() {
    assert_eq!(unused_space(&array(64, 64, TextureFormat::RGB, 0), 32, 32, 4), Err(()));
    assert!(unused_space(&array(64, 64, TextureFormat::RGB, 0), 32, 32, 3).is_ok());
}

#[test]
fn a_texture_larger_than_a_layer_does_not_fit() {
    assert_eq!(unused_space(&array(64, 64, TextureFormat::RGBA, 0), 65, 10, 4), Err(()));
    assert_eq!(unused_space(&array(64, 64, TextureFormat::RGBA, 0), 10, 65, 4), Err(()));
}

#[test]
fn the_first_array_wasting_least_is_chosen() {
    assert_eq!(least_wasteful_array(&vec![Some(30), None, Some(10), Some(10), Some(20)]), Some(2));
    assert_eq!(least_wasteful_array(&vec![Some(0), Some(0)]), Some(0));
}

#[test]
fn no_array_is_chosen_when_none_can_take_the_texture() {
    assert_eq!(least_wasteful_array(&vec![None, None]), None);
    assert_eq!(least_wasteful_array(&vec![]), None);
    assert_eq!(least_wasteful_array(&vec![Some(usize::MAX)]), None);
}
