use render_engine::decimal::decimal_string;
use render_engine::shader_text::{
    create_first_pass_vertex_layouts, create_layout_binding_information, extract_frag_layouts, extract_shared_constants,
    extract_shared_variables, extract_textures, extract_uniforms, layout_formats, second_pass_frag_layouts,
    ComponentKind, Constant, ConstantLocation, ConstantValue, CubeMapInitInfo, DynamicFragmentShaderGeneration,
    DynamicVertexShaderGeneration, FragLayoutInformation, GBufferLayouts, GLSLVersion, LayoutInformation,
    LayoutInstance, LayoutType, LayoutUse, OutVariables, SharedTarget, SharedVariableType, TextureFormat,
};
use render_engine::uniform_layout::{Uniform, UniformBlock, UniformType};

#[test]
fn type_names() {
    assert_eq!("ivec2", LayoutType::Vec2Int.to_string());
    assert_eq!("mat4x4", LayoutType::Mat4x4Float.to_string());
    assert_eq!("#version 430 core", GLSLVersion::Core430.to_string());
    assert_eq!(("uint".to_string(), "42".to_string()), ConstantValue::UInt(42).to_string());
    assert_eq!("mat4", SharedVariableType::Mat4Array(3).to_string());
    assert_eq!("uvec4", SharedVariableType::UVec4.to_string());
    assert_eq!("float", UniformType::FloatArray(2).to_string());
    assert_eq!("vec3", UniformType::Vec3.to_string());
}

#[test]
fn decimal_text() {
    assert_eq!("0", decimal_string(0));
    assert_eq!("7", decimal_string(7));
    assert_eq!("10", decimal_string(10));
    assert_eq!("4294967295", decimal_string(u32::MAX as u64));
}

#[test]
fn constants_go_to_their_shaders() {
    let constants = vec![
        Constant::new(ConstantValue::UInt(4), "MAX_LIGHTS".to_string(), vec![ConstantLocation::VertexShader, ConstantLocation::FragmentShader]),
        Constant::new(ConstantValue::UInt(2), "LEVELS".to_string(), vec![ConstantLocation::FragmentShader]),
    ];
    let mut vertex = DynamicVertexShaderGeneration::new(None);
    let mut frag = DynamicFragmentShaderGeneration::new(Some("frag.glsl".to_string()));
    extract_shared_constants(&constants, &mut vertex, &mut frag);
    assert_eq!("const uint MAX_LIGHTS = 4;\n", vertex.constants);
    assert_eq!("const uint MAX_LIGHTS = 4;\nconst uint LEVELS = 2;\n", frag.constants);
    assert_eq!(Some("frag.glsl".to_string()), frag.generated_name);
}

#[test]
fn shared_variables() {
    let vertex_out = vec![
        OutVariables::new(SharedVariableType::Vec3, "normal".to_string(), false, vec![SharedTarget::FragmentShader]),
        OutVariables::new(SharedVariableType::UIntArray(4), "ids".to_string(), true, vec![SharedTarget::FragmentShader]),
    ];
    let frag_out = vec![OutVariables::new(SharedVariableType::Vec4, "FragColor".to_string(), false, vec![])];
    let mut vertex = DynamicVertexShaderGeneration::new(None);
    let mut frag = DynamicFragmentShaderGeneration::new(None);
    extract_shared_variables(&vertex_out, &frag_out, &mut vertex, &mut frag);
    assert_eq!("out vec3 normal;\nflat out uint ids [4];\n", vertex.out_variables);
    assert_eq!("in vec3 normal;\nflat in uint ids [4];\n", frag.in_variables);
    assert_eq!("out vec4 FragColor;\n", frag.out_variables);
}

#[test]
fn texture_binding_points() {
    let mut vertex = DynamicVertexShaderGeneration::new(None);
    let mut frag = DynamicFragmentShaderGeneration::new(None);
    let shadow = extract_textures(
        true,
        true,
        &vec!["heightMap".to_string()],
        &vec![],
        &vec!["diffuse".to_string()],
        &vec![CubeMapInitInfo::new("sky".to_string())],
        &mut vertex,
        &mut frag,
    );
    assert_eq!(Some(1), shadow);
    assert_eq!("layout (binding = 2) uniform sampler2DArray heightMap;\n", vertex.texture_layouts);
    assert_eq!(
        "layout (binding = 0) uniform sampler2DArray errorTextureArray;\n\
         layout (binding = 1) uniform sampler2DArray shadowMaps;\n\
         layout (binding = 3) uniform sampler2DArray diffuse;\n\
         layout (binding = 4) uniform samplerCube sky;\n",
        frag.texture_layouts
    );
}

#[test]
fn no_shadow_maps_no_binding_point() {
    let mut vertex = DynamicVertexShaderGeneration::new(None);
    let mut frag = DynamicFragmentShaderGeneration::new(None);
    let shadow = extract_textures(false, false, &vec![], &vec![], &vec!["t".to_string()], &vec![], &mut vertex, &mut frag);
    assert_eq!(None, shadow);
    assert_eq!("layout (binding = 0) uniform sampler2DArray t;\n", frag.texture_layouts);
}

#[test]
fn uniform_blocks() {
    let vertex_blocks = vec![UniformBlock::new(
        "Camera".to_string(),
        1,
        vec![Uniform::new("view".to_string(), UniformType::Mat4x4Float), Uniform::new("ids".to_string(), UniformType::UIntArray(2))],
    )];
    let frag_blocks = vec![UniformBlock::new("Light".to_string(), 1, vec![Uniform::new("count".to_string(), UniformType::UInt)])];
    let mut vertex = DynamicVertexShaderGeneration::new(None);
    let mut frag = DynamicFragmentShaderGeneration::new(None);
    extract_uniforms(&vertex_blocks, &frag_blocks, &mut vertex, &mut frag);
    assert_eq!("layout (std140, binding = 0) uniform Camera\n{\tmat4 view;\n\tuint ids [2];\n};\n\n", vertex.uniforms);
    assert_eq!("layout (std140, binding = 1) uniform Light\n{\tuint count;\n};\n\n", frag.uniforms);
}

#[test]
fn whole_vertex_shader_text() {
    let mut vertex = DynamicVertexShaderGeneration::new(None);
    vertex.glsl_version = GLSLVersion::Core430.to_string();
    vertex.layout = "L".to_string();
    assert_eq!("#version 430 core\n\nL\n\n\n\n", vertex.to_string());
    let mut frag = DynamicFragmentShaderGeneration::new(None);
    frag.in_variables = "I".to_string();
    assert_eq!("\n\n\nI\n\n\n\n", frag.to_string());
}

#[test]
fn layout_bindings() {
    let info = create_layout_binding_information(LayoutType::Mat4x4Float, 3);
    assert_eq!(4, info.num_layouts_used);
    assert_eq!("mat4", info.glsl_type);
    let points: Vec<u32> = info.binding_info.iter().map(|b| b.binding_point()).collect();
    assert_eq!(vec![3, 4, 5, 6], points);
    assert!(info.binding_info.iter().all(|b| b.stride() == 64 && b.offset() == 0));

    let info = create_layout_binding_information(LayoutType::Vec3Uint, 0);
    assert_eq!(1, info.num_layouts_used);
    assert_eq!("uvec3", info.glsl_type);
    assert_eq!(12, info.binding_info[0].stride());

    let formats = layout_formats(LayoutType::Mat4x4Float, 1);
    let offsets: Vec<u32> = formats.iter().map(|f| f.relative_offset).collect();
    assert_eq!(vec![0, 16, 32, 48], offsets);
    assert_eq!(ComponentKind::UnsignedInt, layout_formats(LayoutType::Vec2Uint, 0)[0].kind);
}

#[test]
fn vertex_layouts_take_consecutive_locations() {
    let layouts = vec![
        LayoutInformation::new(LayoutType::Vec3Float, LayoutInstance::Divisor0(1, 64), LayoutUse::PerModel, "aPos".to_string()),
        LayoutInformation::new(LayoutType::Mat4x4Float, LayoutInstance::Divisor1(3, 1024), LayoutUse::PerInstance, "aModel".to_string()),
        LayoutInformation::new(LayoutType::Vec2Float, LayoutInstance::Divisor0(1, 64), LayoutUse::PerModel, "aTex".to_string()),
    ];
    let mut vertex = DynamicVertexShaderGeneration::new(None);
    let plan = create_first_pass_vertex_layouts(&layouts, &mut vertex);
    assert_eq!(vec![0, 1, 5], plan.locations);
    assert_eq!(vec![0, 5], plan.model_layout_indexes);
    assert_eq!(vec![1], plan.instance_layout_indexes);
    assert_eq!(
        "layout (location = 0) in vec3 aPos;\nlayout (location = 1) in mat4 aModel;\nlayout (location = 5) in vec2 aTex;\n",
        vertex.layout
    );
}

#[test]
fn frag_layouts_and_g_buffer() {
    let layouts = vec![
        FragLayoutInformation::new(LayoutType::Vec4Float, TextureFormat::RGBA, (800, 600), "gColour".to_string()),
        FragLayoutInformation::new(LayoutType::Vec3Float, TextureFormat::RGBA16F, (800, 600), "gNormal".to_string()),
    ];
    let mut frag = DynamicFragmentShaderGeneration::new(None);
    let mut g_buffer = GBufferLayouts::new();
    extract_frag_layouts(&layouts, &mut frag, &mut g_buffer);
    assert_eq!("layout (location = 0) out vec4 gColour;\nlayout (location = 1) out vec3 gNormal;\n", frag.layout);
    assert_eq!(
        "layout (binding = 0) uniform sampler2DArray gColour;\nlayout (binding = 1) uniform sampler2DArray gNormal;\n",
        g_buffer.layouts
    );
    assert_eq!(2, g_buffer.number_layouts);

    let mut second = DynamicFragmentShaderGeneration::new(None);
    let shadow = second_pass_frag_layouts(true, &g_buffer, &mut second);
    assert_eq!(Some(2), shadow);
    assert!(second.layout.ends_with("layout (binding = 2) uniform sampler2DArray shadowMaps;\n"));
    assert!(second.layout.starts_with(&g_buffer.layouts));
}
