use render_engine::uniform_layout::{create_padded_uniform_block, padding_required, Uniform, UniformBlock, UniformType};

fn uniform(name: &str, t: UniformType) -> Uniform {
    Uniform::new(name.to_string(), t)
}

#[test]
fn padding_rounds_up_to_multiple() {
    assert_eq!(0, padding_required(0, 16));
    assert_eq!(12, padding_required(4, 16));
    assert_eq!(0, padding_required(32, 16));
    assert_eq!(3, padding_required(13, 4));
    // A zero multiple gives the number back.
    assert_eq!(7, padding_required(7, 0));
}

#[test]
fn uniform_sizes() {
    assert_eq!(64, Uniform::size_uniform_bytes(UniformType::Mat4x4Float));
    assert_eq!(4, Uniform::size_uniform_bytes(UniformType::Float));
    assert_eq!(12, Uniform::size_uniform_bytes(UniformType::Vec3));
    assert_eq!(16, Uniform::size_uniform_bytes(UniformType::Vec4));
    assert_eq!(48, Uniform::size_uniform_bytes(UniformType::FloatArray(3)));
    assert_eq!(128, Uniform::size_uniform_bytes(UniformType::Mat4Array(2)));
}

#[test]
fn uniforms_are_padded_to_their_alignment() {
    let vertex = vec![UniformBlock::new(
        "Matrices".to_string(),
        2,
        vec![
            uniform("a", UniformType::Float),
            uniform("b", UniformType::Vec3),
            uniform("c", UniformType::Int),
            uniform("d", UniformType::Mat4x4Float),
        ],
    )];
    let fragment = vec![UniformBlock::new(
        "Lights".to_string(),
        1,
        vec![uniform("e", UniformType::UInt), uniform("f", UniformType::FloatArray(3)), uniform("g", UniformType::Vec3Array(2))],
    )];
    let layout = create_padded_uniform_block(&vertex, &fragment);
    assert_eq!(vec![96, 96], layout.block_sizes);

    let offsets: Vec<isize> = layout.locations[0].iter().map(|l| l.offset_bytes).collect();
    assert_eq!(vec![0, 16, 28, 32], offsets);
    assert!(layout.locations[0].iter().all(|l| l.mapped_buffer_index == 0 && l.sub_padding_bytes == 0));

    let offsets: Vec<isize> = layout.locations[1].iter().map(|l| l.offset_bytes).collect();
    assert_eq!(vec![0, 16, 64], offsets);
    let sub: Vec<isize> = layout.locations[1].iter().map(|l| l.sub_padding_bytes).collect();
    assert_eq!(vec![0, 12, 4], sub);
    assert!(layout.locations[1].iter().all(|l| l.mapped_buffer_index == 1));
}

#[test]
fn empty_blocks_take_no_space() {
    let vertex = vec![UniformBlock::new("Empty".to_string(), 1, vec![])];
    let layout = create_padded_uniform_block(&vertex, &vec![]);
    assert_eq!(vec![0], layout.block_sizes);
    assert!(layout.locations[0].is_empty());
}
