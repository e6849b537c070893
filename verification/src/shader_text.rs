//! The generated parts of a render system's shaders: GLSL declarations of constants, in and
//! out variables, vertex layouts, fragment layouts, texture samplers and uniform blocks.

use crate::decimal::{decimal_string, decimal_text};
use crate::uniform_layout::{uniform_size, Uniform, UniformBlock, UniformType};
use vstd::prelude::*;
use vstd::string::*;

verus! {

/// Possible GLSL vertex layout types.
#[derive(Copy, Clone, Debug, PartialEq, Eq, Structural)]
pub enum LayoutType {
    Vec2Int,
    Vec2Uint,
    Vec2Float,
    Vec3Float,
    Vec4Float,
    Vec3Uint,
    Vec4Uint,
    Mat4x4Float,
}

/// The GLSL name of a layout type.
pub open spec fn layout_type_text(t: LayoutType) -> Seq<char> {
    match t {
        LayoutType::Vec2Int => "ivec2"@,
        LayoutType::Vec2Uint => "uvec2"@,
        LayoutType::Vec2Float => "vec2"@,
        LayoutType::Vec3Float => "vec3"@,
        LayoutType::Vec4Float => "vec4"@,
        LayoutType::Vec3Uint => "uvec3"@,
        LayoutType::Vec4Uint => "uvec4"@,
        LayoutType::Mat4x4Float => "mat4x4"@,
    }
}

impl LayoutType {
    /// Converts the layout type to its GLSL name.
    pub fn to_string(&self) -> (r: String)
        ensures
            r@ == layout_type_text(*self),
    {
        match *self {
            LayoutType::Vec2Int => String::from_str("ivec2"),
            LayoutType::Vec2Uint => String::from_str("uvec2"),
            LayoutType::Vec2Float => String::from_str("vec2"),
            LayoutType::Vec3Float => String::from_str("vec3"),
            LayoutType::Vec4Float => String::from_str("vec4"),
            LayoutType::Vec3Uint => String::from_str("uvec3"),
            LayoutType::Vec4Uint => String::from_str("uvec4"),
            LayoutType::Mat4x4Float => String::from_str("mat4x4"),
        }
    }
}

/// The GLSL version a shader is written for.
#[derive(Copy, Clone, Debug)]
pub enum GLSLVersion {
    Core430,
}

impl GLSLVersion {
    /// The version declaration of the shader.
    pub fn to_string(&self) -> (r: String)
        ensures
            r@ == "#version 430 core"@,
    {
        match *self {
            GLSLVersion::Core430 => String::from_str("#version 430 core"),
        }
    }
}

/// The value of a shader constant.
#[derive(Copy, Clone, Debug)]
pub enum ConstantValue {
    UInt(u32),
}

/// The GLSL type and value text of a constant.
pub open spec fn constant_value_text(v: ConstantValue) -> (Seq<char>, Seq<char>) {
    match v {
        ConstantValue::UInt(i) => ("uint"@, decimal_text(i as nat)),
    }
}

impl ConstantValue {
    /// The GLSL type and value of the constant, as text.
    pub fn to_string(&self) -> (r: (String, String))
        ensures
            (r.0@, r.1@) == constant_value_text(*self),
    {
        match *self {
            ConstantValue::UInt(i) => (String::from_str("uint"), decimal_string(i as u64)),
        }
    }
}

/// The shader a constant is declared in.
#[derive(Copy, Clone, Debug, PartialEq, Eq, Structural)]
pub enum ConstantLocation {
    VertexShader,
    FragmentShader,
}

/// A constant used in shaders: its value, name and the shaders it is declared in.
pub struct Constant {
    pub value: ConstantValue,
    pub name: String,
    pub share_targets: Vec<ConstantLocation>,
}

impl Constant {
    /// Creates a shader constant.
    pub fn new(value: ConstantValue, name: String, targets: Vec<ConstantLocation>) -> (r: Constant)
        ensures
            r.value == value,
            r.name == name,
            r.share_targets == targets,
    {
        Constant { value, name, share_targets: targets }
    }
}

/// The type of an in/out variable shared between shaders; arrays give their length.
#[derive(Copy, Clone, Debug)]
pub enum SharedVariableType {
    Vec2,
    Vec3,
    Vec4,
    Mat4x4Float,
    Int,
    UInt,
    Float,
    UVec3,
    UVec4,
    UIntArray(u16),
    FloatArray(u16),
    Vec3Array(u16),
    Vec4Array(u16),
    Mat4Array(u16),
}

/// The GLSL element type of a shared variable type.
pub open spec fn shared_type_text(t: SharedVariableType) -> Seq<char> {
    match t {
        SharedVariableType::UVec3 => "uvec3"@,
        SharedVariableType::UVec4 => "uvec4"@,
        SharedVariableType::Vec2 => "vec2"@,
        SharedVariableType::Vec3 => "vec3"@,
        SharedVariableType::Vec4 => "vec4"@,
        SharedVariableType::Mat4x4Float => "mat4"@,
        SharedVariableType::Int => "int"@,
        SharedVariableType::UInt => "uint"@,
        SharedVariableType::Float => "float"@,
        SharedVariableType::UIntArray(_) => "uint"@,
        SharedVariableType::FloatArray(_) => "float"@,
        SharedVariableType::Vec3Array(_) => "vec3"@,
        SharedVariableType::Vec4Array(_) => "vec4"@,
        SharedVariableType::Mat4Array(_) => "mat4"@,
    }
}

impl SharedVariableType {
    /// Converts the type to its GLSL element type.
    pub fn to_string(&self) -> (r: String)
        ensures
            r@ == shared_type_text(*self),
    {
        match *self {
            SharedVariableType::UVec3 => String::from_str("uvec3"),
            SharedVariableType::UVec4 => String::from_str("uvec4"),
            SharedVariableType::Vec2 => String::from_str("vec2"),
            SharedVariableType::Vec3 => String::from_str("vec3"),
            SharedVariableType::Vec4 => String::from_str("vec4"),
            SharedVariableType::Mat4x4Float => String::from_str("mat4"),
            SharedVariableType::Int => String::from_str("int"),
            SharedVariableType::UInt => String::from_str("uint"),
            SharedVariableType::Float => String::from_str("float"),
            SharedVariableType::UIntArray(_) => String::from_str("uint"),
            SharedVariableType::FloatArray(_) => String::from_str("float"),
            SharedVariableType::Vec3Array(_) => String::from_str("vec3"),
            SharedVariableType::Vec4Array(_) => String::from_str("vec4"),
            SharedVariableType::Mat4Array(_) => String::from_str("mat4"),
        }
    }
}

/// The GLSL element type of a uniform type.
pub open spec fn uniform_type_text(t: UniformType) -> Seq<char> {
    match t {
        UniformType::Vec3 => "vec3"@,
        UniformType::Vec4 => "vec4"@,
        UniformType::Mat4x4Float => "mat4"@,
        UniformType::Int => "int"@,
        UniformType::UInt => "uint"@,
        UniformType::Float => "float"@,
        UniformType::UIntArray(_) => "uint"@,
        UniformType::FloatArray(_) => "float"@,
        UniformType::Vec3Array(_) => "vec3"@,
        UniformType::Vec4Array(_) => "vec4"@,
        UniformType::Mat4Array(_) => "mat4"@,
    }
}

impl UniformType {
    /// Converts the uniform type to its GLSL element type.
    pub fn to_string(&self) -> (r: String)
        ensures
            r@ == uniform_type_text(*self),
    {
        match *self {
            UniformType::Vec3 => String::from_str("vec3"),
            UniformType::Vec4 => String::from_str("vec4"),
            UniformType::Mat4x4Float => String::from_str("mat4"),
            UniformType::Int => String::from_str("int"),
            UniformType::UInt => String::from_str("uint"),
            UniformType::Float => String::from_str("float"),
            UniformType::UIntArray(_) => String::from_str("uint"),
            UniformType::FloatArray(_) => String::from_str("float"),
            UniformType::Vec3Array(_) => String::from_str("vec3"),
            UniformType::Vec4Array(_) => String::from_str("vec4"),
            UniformType::Mat4Array(_) => String::from_str("mat4"),
        }
    }
}

/// The shader an out variable leads to.
#[derive(Copy, Clone, Debug)]
pub enum SharedTarget {
    FragmentShader,
}

/// An out variable of a shader.
pub struct OutVariables {
    pub data_type: SharedVariableType,
    pub name: String,
    pub is_flat: bool,
    pub share_target: Vec<SharedTarget>,
}

impl OutVariables {
    /// Specifies an out variable.
    pub fn new(data_type: SharedVariableType, name: String, is_flat: bool, share_target: Vec<SharedTarget>) -> (r: OutVariables)
        ensures
            r.data_type == data_type,
            r.name == name,
            r.is_flat == is_flat,
            r.share_target == share_target,
    {
        OutVariables { data_type, name, is_flat, share_target }
    }
}

/// The information required to create a cubemap.
pub struct CubeMapInitInfo {
    pub cube_map_name: String,
}

impl CubeMapInitInfo {
    /// Specifies a cubemap with the given name.
    pub fn new(cubemap_name: String) -> (r: CubeMapInitInfo)
        ensures
            r.cube_map_name == cubemap_name,
    {
        CubeMapInitInfo { cube_map_name: cubemap_name }
    }
}

/// The generated parts of a vertex shader.
pub struct DynamicVertexShaderGeneration {
    pub generated_name: Option<String>,
    pub glsl_version: String,
    pub constants: String,
    pub layout: String,
    pub out_variables: String,
    pub texture_layouts: String,
    pub uniforms: String,
}

/// The generated parts of a fragment shader.
pub struct DynamicFragmentShaderGeneration {
    pub generated_name: Option<String>,
    pub glsl_version: String,
    pub constants: String,
    pub layout: String,
    pub in_variables: String,
    pub out_variables: String,
    pub texture_layouts: String,
    pub uniforms: String,
}

impl DynamicVertexShaderGeneration {
    /// An empty vertex shader, to be written to the file `generated_name` if given.
    pub fn new(generated_name: Option<String>) -> (r: DynamicVertexShaderGeneration)
        ensures
            r.generated_name == generated_name,
            r.glsl_version@ == Seq::<char>::empty(),
            r.constants@ == Seq::<char>::empty(),
            r.layout@ == Seq::<char>::empty(),
            r.out_variables@ == Seq::<char>::empty(),
            r.texture_layouts@ == Seq::<char>::empty(),
            r.uniforms@ == Seq::<char>::empty(),
    {
        proof {
            reveal_strlit("");
        }
        DynamicVertexShaderGeneration {
            generated_name,
            glsl_version: String::from_str(""),
            constants: String::from_str(""),
            layout: String::from_str(""),
            out_variables: String::from_str(""),
            texture_layouts: String::from_str(""),
            uniforms: String::from_str(""),
        }
    }

    /// The whole generated text: each part followed by a line break.
    pub fn to_string(&self) -> (r: String)
        ensures
            r@ == self.glsl_version@ + "\n"@ + self.constants@ + "\n"@ + self.layout@ + "\n"@ + self.out_variables@
                + "\n"@ + self.texture_layouts@ + "\n"@ + self.uniforms@ + "\n"@,
    {
        let mut append_contents = self.glsl_version.clone();
        append_contents.append("\n");
        append_contents.append(self.constants.as_str());
        append_contents.append("\n");
        append_contents.append(self.layout.as_str());
        append_contents.append("\n");
        append_contents.append(self.out_variables.as_str());
        append_contents.append("\n");
        append_contents.append(self.texture_layouts.as_str());
        append_contents.append("\n");
        append_contents.append(self.uniforms.as_str());
        append_contents.append("\n");
        append_contents
    }
}

impl DynamicFragmentShaderGeneration {
    /// An empty fragment shader, to be written to the file `generated_name` if given.
    pub fn new(generated_name: Option<String>) -> (r: DynamicFragmentShaderGeneration)
        ensures
            r.generated_name == generated_name,
            r.glsl_version@ == Seq::<char>::empty(),
            r.constants@ == Seq::<char>::empty(),
            r.layout@ == Seq::<char>::empty(),
            r.in_variables@ == Seq::<char>::empty(),
            r.out_variables@ == Seq::<char>::empty(),
            r.texture_layouts@ == Seq::<char>::empty(),
            r.uniforms@ == Seq::<char>::empty(),
    {
        proof {
            reveal_strlit("");
        }
        DynamicFragmentShaderGeneration {
            generated_name,
            glsl_version: String::from_str(""),
            constants: String::from_str(""),
            layout: String::from_str(""),
            in_variables: String::from_str(""),
            out_variables: String::from_str(""),
            texture_layouts: String::from_str(""),
            uniforms: String::from_str(""),
        }
    }

    /// The whole generated text: each part followed by a line break.
    pub fn to_string(&self) -> (r: String)
        ensures
            r@ == self.glsl_version@ + "\n"@ + self.constants@ + "\n"@ + self.layout@ + "\n"@ + self.in_variables@
                + "\n"@ + self.out_variables@ + "\n"@ + self.texture_layouts@ + "\n"@ + self.uniforms@ + "\n"@,
    {
        let mut append_contents = self.glsl_version.clone();
        append_contents.append("\n");
        append_contents.append(self.constants.as_str());
        append_contents.append("\n");
        append_contents.append(self.layout.as_str());
        append_contents.append("\n");
        append_contents.append(self.in_variables.as_str());
        append_contents.append("\n");
        append_contents.append(self.out_variables.as_str());
        append_contents.append("\n");
        append_contents.append(self.texture_layouts.as_str());
        append_contents.append("\n");
        append_contents.append(self.uniforms.as_str());
        append_contents.append("\n");
        append_contents
    }
}

/// The declaration of a constant.
pub open spec fn constant_line(c: Constant) -> Seq<char> {
    "const "@ + constant_value_text(c.value).0 + " "@ + c.name@ + " = "@ + constant_value_text(c.value).1 + ";\n"@
}

/// `line` once for each entry of `targets` that is `want`.
pub open spec fn repeated_for(line: Seq<char>, targets: Seq<ConstantLocation>, want: ConstantLocation) -> Seq<char>
    decreases targets.len(),
{
    if targets.len() == 0 {
        Seq::<char>::empty()
    } else {
        repeated_for(line, targets.drop_last(), want) + (if targets.last() == want {
            line
        } else {
            Seq::<char>::empty()
        })
    }
}

/// The declarations of `constants` in the shader `want`, in order.
pub open spec fn constants_text(constants: Seq<Constant>, want: ConstantLocation) -> Seq<char>
    decreases constants.len(),
{
    if constants.len() == 0 {
        Seq::<char>::empty()
    } else {
        constants_text(constants.drop_last(), want) + repeated_for(
            constant_line(constants.last()),
            constants.last().share_targets@,
            want,
        )
    }
}

/// Writes the declarations of the shared constants into each shader they are declared in.
pub fn extract_shared_constants(
    constants: &Vec<Constant>,
    dynamic_vertex: &mut DynamicVertexShaderGeneration,
    dynamic_frag: &mut DynamicFragmentShaderGeneration,
)
    ensures
        final(dynamic_vertex).constants@ == old(dynamic_vertex).constants@ + constants_text(
            constants@,
            ConstantLocation::VertexShader,
        ),
        final(dynamic_frag).constants@ == old(dynamic_frag).constants@ + constants_text(
            constants@,
            ConstantLocation::FragmentShader,
        ),
        *final(dynamic_vertex) == (DynamicVertexShaderGeneration { constants: final(dynamic_vertex).constants, ..*old(dynamic_vertex) }),
        *final(dynamic_frag) == (DynamicFragmentShaderGeneration { constants: final(dynamic_frag).constants, ..*old(dynamic_frag) }),
{
    let mut i: usize = 0;
    while i < constants.len()
        invariant
            i <= constants.len(),
            dynamic_vertex.constants@ == old(dynamic_vertex).constants@ + constants_text(
                constants@.take(i as int),
                ConstantLocation::VertexShader,
            ),
            dynamic_frag.constants@ == old(dynamic_frag).constants@ + constants_text(
                constants@.take(i as int),
                ConstantLocation::FragmentShader,
            ),
            *dynamic_vertex == (DynamicVertexShaderGeneration { constants: dynamic_vertex.constants, ..*old(dynamic_vertex) }),
            *dynamic_frag == (DynamicFragmentShaderGeneration { constants: dynamic_frag.constants, ..*old(dynamic_frag) }),
        decreases constants.len() - i,
    {
        let constant = &constants[i];
        let (data_type, data_value) = constant.value.to_string();
        let mut line = String::from_str("const ");
        line.append(data_type.as_str());
        line.append(" ");
        line.append(constant.name.as_str());
        line.append(" = ");
        line.append(data_value.as_str());
        line.append(";\n");
        assert(line@ == constant_line(*constant));
        let ghost vertex_before = dynamic_vertex.constants@;
        let ghost frag_before = dynamic_frag.constants@;
        let mut j: usize = 0;
        while j < constant.share_targets.len()
            invariant
                j <= constant.share_targets.len(),
                line@ == constant_line(*constant),
                dynamic_vertex.constants@ == vertex_before + repeated_for(
                    line@,
                    constant.share_targets@.take(j as int),
                    ConstantLocation::VertexShader,
                ),
                dynamic_frag.constants@ == frag_before + repeated_for(
                    line@,
                    constant.share_targets@.take(j as int),
                    ConstantLocation::FragmentShader,
                ),
                *dynamic_vertex == (DynamicVertexShaderGeneration { constants: dynamic_vertex.constants, ..*old(dynamic_vertex) }),
                *dynamic_frag == (DynamicFragmentShaderGeneration { constants: dynamic_frag.constants, ..*old(dynamic_frag) }),
            decreases constant.share_targets.len() - j,
        {
            let ghost targets = constant.share_targets@;
            proof {
                assert(targets.take(j + 1).drop_last() =~= targets.take(j as int));
                assert(targets.take(j + 1).last() == targets[j as int]);
            }
            match constant.share_targets[j] {
                ConstantLocation::VertexShader => dynamic_vertex.constants.append(line.as_str()),
                ConstantLocation::FragmentShader => dynamic_frag.constants.append(line.as_str()),
            }
            proof {
                assert(dynamic_vertex.constants@ =~= vertex_before + repeated_for(
                    line@,
                    targets.take(j + 1),
                    ConstantLocation::VertexShader,
                ));
                assert(dynamic_frag.constants@ =~= frag_before + repeated_for(
                    line@,
                    targets.take(j + 1),
                    ConstantLocation::FragmentShader,
                ));
            }
            j = j + 1;
        }
        proof {
            assert(constant.share_targets@.take(constant.share_targets.len() as int) =~= constant.share_targets@);
            assert(constants@.take(i + 1).drop_last() =~= constants@.take(i as int));
            assert(constants@.take(i + 1).last() == constants@[i as int]);
            assert(dynamic_vertex.constants@ =~= old(dynamic_vertex).constants@ + constants_text(
                constants@.take(i + 1),
                ConstantLocation::VertexShader,
            ));
            assert(dynamic_frag.constants@ =~= old(dynamic_frag).constants@ + constants_text(
                constants@.take(i + 1),
                ConstantLocation::FragmentShader,
            ));
        }
        i = i + 1;
    }
    assert(constants@.take(constants.len() as int) =~= constants@);
}

/// The qualifier of a flat variable.
pub open spec fn flat_text(is_flat: bool) -> Seq<char> {
    if is_flat {
        "flat "@
    } else {
        ""@
    }
}

/// The array suffix of a shared variable's declaration, with its terminator.
pub open spec fn shared_array_text(t: SharedVariableType) -> Seq<char> {
    match t {
        SharedVariableType::Mat4Array(i) | SharedVariableType::Vec4Array(i) | SharedVariableType::Vec3Array(i)
        | SharedVariableType::FloatArray(i) | SharedVariableType::UIntArray(i) => " ["@ + decimal_text(i as nat) + "];"@,
        _ => ";"@,
    }
}

/// An array shared variable of `n` elements is declared as its element type with the
/// suffix " [n];"; a variable that is not an array ends with ";" alone.
pub proof fn lemma_shared_array_declarations(n: u16)
    ensures
        shared_type_text(SharedVariableType::UIntArray(n)) == shared_type_text(SharedVariableType::UInt),
        shared_type_text(SharedVariableType::FloatArray(n)) == shared_type_text(SharedVariableType::Float),
        shared_type_text(SharedVariableType::Vec3Array(n)) == shared_type_text(SharedVariableType::Vec3),
        shared_type_text(SharedVariableType::Vec4Array(n)) == shared_type_text(SharedVariableType::Vec4),
        shared_type_text(SharedVariableType::Mat4Array(n)) == shared_type_text(SharedVariableType::Mat4x4Float),
        shared_array_text(SharedVariableType::UIntArray(n)) == " ["@ + decimal_text(n as nat) + "]"@ + ";"@,
        shared_array_text(SharedVariableType::FloatArray(n)) == " ["@ + decimal_text(n as nat) + "]"@ + ";"@,
        shared_array_text(SharedVariableType::Vec3Array(n)) == " ["@ + decimal_text(n as nat) + "]"@ + ";"@,
        shared_array_text(SharedVariableType::Vec4Array(n)) == " ["@ + decimal_text(n as nat) + "]"@ + ";"@,
        shared_array_text(SharedVariableType::Mat4Array(n)) == " ["@ + decimal_text(n as nat) + "]"@ + ";"@,
        shared_array_text(SharedVariableType::Vec2) == ";"@,
        shared_array_text(SharedVariableType::Vec3) == ";"@,
        shared_array_text(SharedVariableType::Vec4) == ";"@,
        shared_array_text(SharedVariableType::Mat4x4Float) == ";"@,
        shared_array_text(SharedVariableType::Int) == ";"@,
        shared_array_text(SharedVariableType::UInt) == ";"@,
        shared_array_text(SharedVariableType::Float) == ";"@,
        shared_array_text(SharedVariableType::UVec3) == ";"@,
        shared_array_text(SharedVariableType::UVec4) == ";"@,
{
    reveal_strlit("];");
    reveal_strlit("]");
    reveal_strlit(";");
    assert(" ["@ + decimal_text(n as nat) + "];"@ =~= " ["@ + decimal_text(n as nat) + "]"@ + ";"@);
}

/// The declaration of a shared variable with the direction `direction` ("in" or "out").
pub open spec fn shared_variable_line(v: OutVariables, direction: Seq<char>) -> Seq<char> {
    flat_text(v.is_flat) + direction + " "@ + shared_type_text(v.data_type) + " "@ + v.name@ + shared_array_text(
        v.data_type,
    ) + "\n"@
}

/// The declarations of `variables` with the direction `direction`, in order.
pub open spec fn shared_variables_text(variables: Seq<OutVariables>, direction: Seq<char>) -> Seq<char>
    decreases variables.len(),
{
    if variables.len() == 0 {
        Seq::<char>::empty()
    } else {
        shared_variables_text(variables.drop_last(), direction) + shared_variable_line(variables.last(), direction)
    }
}

fn shared_array_string(t: SharedVariableType) -> (r: String)
    ensures
        r@ == shared_array_text(t),
{
    match t {
        SharedVariableType::Mat4Array(i) | SharedVariableType::Vec4Array(i) | SharedVariableType::Vec3Array(i)
        | SharedVariableType::FloatArray(i) | SharedVariableType::UIntArray(i) => {
            let mut a = String::from_str(" [");
            a.append(decimal_string(i as u64).as_str());
            a.append("];");
            a
        },
        _ => String::from_str(";"),
    }
}

fn shared_variable_string(v: &OutVariables, direction: &str) -> (r: String)
    ensures
        r@ == shared_variable_line(*v, direction@),
{
    let mut line = if v.is_flat {
        String::from_str("flat ")
    } else {
        String::from_str("")
    };
    line.append(direction);
    line.append(" ");
    line.append(v.data_type.to_string().as_str());
    line.append(" ");
    line.append(v.name.as_str());
    line.append(shared_array_string(v.data_type).as_str());
    line.append("\n");
    line
}

/// Appends the declarations of `variables` with the direction `direction` to `storage`.
fn append_shared_variables(storage: &mut String, variables: &Vec<OutVariables>, direction: &str)
    ensures
        final(storage)@ == old(storage)@ + shared_variables_text(variables@, direction@),
{
    let mut i: usize = 0;
    while i < variables.len()
        invariant
            i <= variables.len(),
            storage@ == old(storage)@ + shared_variables_text(variables@.take(i as int), direction@),
        decreases variables.len() - i,
    {
        let line = shared_variable_string(&variables[i], direction);
        storage.append(line.as_str());
        proof {
            assert(variables@.take(i + 1).drop_last() =~= variables@.take(i as int));
            assert(variables@.take(i + 1).last() == variables@[i as int]);
            assert(storage@ =~= old(storage)@ + shared_variables_text(variables@.take(i + 1), direction@));
        }
        i = i + 1;
    }
    assert(variables@.take(variables.len() as int) =~= variables@);
}

/// Writes the in/out variables: the vertex shader's out variables lead to the fragment
/// shader, where they are in variables, and the fragment shader has its own out variables.
pub fn extract_shared_variables(
    vertex_out_variables: &Vec<OutVariables>,
    frag_out_variables: &Vec<OutVariables>,
    dynamic_vertex: &mut DynamicVertexShaderGeneration,
    dynamic_frag: &mut DynamicFragmentShaderGeneration,
)
    ensures
        final(dynamic_vertex).out_variables@ == old(dynamic_vertex).out_variables@ + shared_variables_text(
            vertex_out_variables@,
            "out"@,
        ),
        final(dynamic_frag).in_variables@ == old(dynamic_frag).in_variables@ + shared_variables_text(
            vertex_out_variables@,
            "in"@,
        ),
        final(dynamic_frag).out_variables@ == old(dynamic_frag).out_variables@ + shared_variables_text(
            frag_out_variables@,
            "out"@,
        ),
        *final(dynamic_vertex) == (DynamicVertexShaderGeneration { out_variables: final(dynamic_vertex).out_variables, ..*old(dynamic_vertex) }),
        *final(dynamic_frag) == (DynamicFragmentShaderGeneration {
            in_variables: final(dynamic_frag).in_variables,
            out_variables: final(dynamic_frag).out_variables,
            ..*old(dynamic_frag)
        }),
{
    append_shared_variables(&mut dynamic_vertex.out_variables, vertex_out_variables, "out");
    append_shared_variables(&mut dynamic_frag.in_variables, vertex_out_variables, "in");
    append_shared_variables(&mut dynamic_frag.out_variables, frag_out_variables, "out");
}

/// The declaration of a sampler named `name` of the kind `kind` at binding point `binding`.
pub open spec fn sampler_line(binding: nat, kind: Seq<char>, name: Seq<char>) -> Seq<char> {
    "layout (binding = "@ + decimal_text(binding) + ") uniform "@ + kind + " "@ + name + ";\n"@
}

/// The declarations of samplers named `names` of the kind `kind`, at consecutive binding
/// points from `start`.
pub open spec fn sampler_lines(names: Seq<Seq<char>>, start: nat, kind: Seq<char>) -> Seq<char>
    decreases names.len(),
{
    if names.len() == 0 {
        Seq::<char>::empty()
    } else {
        sampler_lines(names.drop_last(), start, kind) + sampler_line(
            (start + names.len() - 1) as nat,
            kind,
            names.last(),
        )
    }
}

/// The texts of `strings`.
pub open spec fn texts(strings: Seq<String>) -> Seq<Seq<char>> {
    strings.map_values(|s: String| s@)
}

/// The names of `cubemaps`.
pub open spec fn cubemap_names(cubemaps: Seq<CubeMapInitInfo>) -> Seq<Seq<char>> {
    cubemaps.map_values(|c: CubeMapInitInfo| c.cube_map_name@)
}

fn sampler_string(binding: u32, kind: &str, name: &str) -> (r: String)
    ensures
        r@ == sampler_line(binding as nat, kind@, name@),
{
    let mut line = String::from_str("layout (binding = ");
    line.append(decimal_string(binding as u64).as_str());
    line.append(") uniform ");
    line.append(kind);
    line.append(" ");
    line.append(name);
    line.append(";\n");
    line
}

/// Appends the declarations of samplers named `names` of the kind `kind`, at binding points
/// from `start`.
fn append_sampler_lines(storage: &mut String, names: &Vec<String>, start: u32, kind: &str)
    requires
        start + names.len() <= u32::MAX,
    ensures
        final(storage)@ == old(storage)@ + sampler_lines(texts(names@), start as nat, kind@),
{
    let mut i: usize = 0;
    while i < names.len()
        invariant
            start + names.len() <= u32::MAX,
            i <= names.len(),
            storage@ == old(storage)@ + sampler_lines(texts(names@).take(i as int), start as nat, kind@),
        decreases names.len() - i,
    {
        let line = sampler_string(start + i as u32, kind, names[i].as_str());
        storage.append(line.as_str());
        proof {
            let ns = texts(names@);
            assert(ns.take(i + 1).drop_last() =~= ns.take(i as int));
            assert(ns.take(i + 1).last() == names@[i as int]@);
            assert(storage@ =~= old(storage)@ + sampler_lines(ns.take(i + 1), start as nat, kind@));
        }
        i = i + 1;
    }
    assert(texts(names@).take(names.len() as int) =~= texts(names@));
}

/// Appends the declarations of cubemap samplers, at binding points from `start`.
fn append_cubemap_lines(storage: &mut String, cubemaps: &Vec<CubeMapInitInfo>, start: u32)
    requires
        start + cubemaps.len() <= u32::MAX,
    ensures
        final(storage)@ == old(storage)@ + sampler_lines(cubemap_names(cubemaps@), start as nat, "samplerCube"@),
{
    let mut i: usize = 0;
    while i < cubemaps.len()
        invariant
            start + cubemaps.len() <= u32::MAX,
            i <= cubemaps.len(),
            storage@ == old(storage)@ + sampler_lines(cubemap_names(cubemaps@).take(i as int), start as nat, "samplerCube"@),
        decreases cubemaps.len() - i,
    {
        let line = sampler_string(start + i as u32, "samplerCube", cubemaps[i].cube_map_name.as_str());
        storage.append(line.as_str());
        proof {
            let ns = cubemap_names(cubemaps@);
            assert(ns.take(i + 1).drop_last() =~= ns.take(i as int));
            assert(ns.take(i + 1).last() == cubemaps@[i as int].cube_map_name@);
            assert(storage@ =~= old(storage)@ + sampler_lines(ns.take(i + 1), start as nat, "samplerCube"@));
        }
        i = i + 1;
    }
    assert(cubemap_names(cubemaps@).take(cubemaps.len() as int) =~= cubemap_names(cubemaps@));
}

/// Writes the texture sampler declarations. Binding points are given in order: the error
/// texture array and the shadow maps when the fragment shader includes them, then the vertex
/// shader's texture arrays and cubemaps, then the fragment shader's. Returns the shadow maps'
/// binding point when they are included.
pub fn extract_textures(
    include_error_textures: bool,
    include_shadow_maps: bool,
    vertex_textures: &Vec<String>,
    vertex_cubemaps: &Vec<CubeMapInitInfo>,
    frag_textures: &Vec<String>,
    frag_cubemaps: &Vec<CubeMapInitInfo>,
    dynamic_vertex: &mut DynamicVertexShaderGeneration,
    dynamic_frag: &mut DynamicFragmentShaderGeneration,
) -> (r: Option<u32>)
    requires
        2 + vertex_textures.len() + vertex_cubemaps.len() + frag_textures.len() + frag_cubemaps.len() <= u32::MAX,
    ensures
        ({
            let e: nat = if include_error_textures {
                1
            } else {
                0
            };
            let s: nat = if include_shadow_maps {
                1
            } else {
                0
            };
            let vertex_start: nat = e + s;
            let frag_start: nat = (vertex_start + vertex_textures.len() + vertex_cubemaps.len()) as nat;
            &&& r == (if include_shadow_maps {
                Some(e as u32)
            } else {
                None::<u32>
            })
            &&& final(dynamic_vertex).texture_layouts@ == old(dynamic_vertex).texture_layouts@ + sampler_lines(
                texts(vertex_textures@),
                vertex_start,
                "sampler2DArray"@,
            ) + sampler_lines(
                cubemap_names(vertex_cubemaps@),
                (vertex_start + vertex_textures.len()) as nat,
                "samplerCube"@,
            )
            &&& final(dynamic_frag).texture_layouts@ == old(dynamic_frag).texture_layouts@ + (if include_error_textures {
                sampler_line(0, "sampler2DArray"@, "errorTextureArray"@)
            } else {
                Seq::<char>::empty()
            }) + (if include_shadow_maps {
                sampler_line(e, "sampler2DArray"@, "shadowMaps"@)
            } else {
                Seq::<char>::empty()
            }) + sampler_lines(texts(frag_textures@), frag_start, "sampler2DArray"@) + sampler_lines(
                cubemap_names(frag_cubemaps@),
                (frag_start + frag_textures.len()) as nat,
                "samplerCube"@,
            )
        }),
        *final(dynamic_vertex) == (DynamicVertexShaderGeneration { texture_layouts: final(dynamic_vertex).texture_layouts, ..*old(dynamic_vertex) }),
        *final(dynamic_frag) == (DynamicFragmentShaderGeneration { texture_layouts: final(dynamic_frag).texture_layouts, ..*old(dynamic_frag) }),
{
    let mut number_binding_points_processed: u32 = 0;
    let ghost frag_initial = dynamic_frag.texture_layouts@;
    if include_error_textures {
        let line = sampler_string(number_binding_points_processed, "sampler2DArray", "errorTextureArray");
        dynamic_frag.texture_layouts.append(line.as_str());
        number_binding_points_processed = number_binding_points_processed + 1;
    }
    let ghost after_error = dynamic_frag.texture_layouts@;
    let shadow_map_binding_point = if include_shadow_maps {
        let line = sampler_string(number_binding_points_processed, "sampler2DArray", "shadowMaps");
        dynamic_frag.texture_layouts.append(line.as_str());
        number_binding_points_processed = number_binding_points_processed + 1;
        Some(number_binding_points_processed - 1)
    } else {
        None
    };
    let ghost after_shadow = dynamic_frag.texture_layouts@;
    append_sampler_lines(
        &mut dynamic_vertex.texture_layouts,
        vertex_textures,
        number_binding_points_processed,
        "sampler2DArray",
    );
    number_binding_points_processed = number_binding_points_processed + vertex_textures.len() as u32;
    append_cubemap_lines(&mut dynamic_vertex.texture_layouts, vertex_cubemaps, number_binding_points_processed);
    number_binding_points_processed = number_binding_points_processed + vertex_cubemaps.len() as u32;
    append_sampler_lines(&mut dynamic_frag.texture_layouts, frag_textures, number_binding_points_processed, "sampler2DArray");
    number_binding_points_processed = number_binding_points_processed + frag_textures.len() as u32;
    append_cubemap_lines(&mut dynamic_frag.texture_layouts, frag_cubemaps, number_binding_points_processed);
    proof {
        let e: nat = if include_error_textures {
            1
        } else {
            0
        };
        let error_text = if include_error_textures {
            sampler_line(0, "sampler2DArray"@, "errorTextureArray"@)
        } else {
            Seq::<char>::empty()
        };
        let shadow_text = if include_shadow_maps {
            sampler_line(e, "sampler2DArray"@, "shadowMaps"@)
        } else {
            Seq::<char>::empty()
        };
        assert(after_error =~= frag_initial + error_text);
        assert(after_shadow =~= frag_initial + error_text + shadow_text);
    }
    shadow_map_binding_point
}

/// The array suffix of a uniform's declaration, with its terminator.
pub open spec fn uniform_array_text(t: UniformType) -> Seq<char> {
    match t {
        UniformType::Mat4Array(i) | UniformType::Vec4Array(i) | UniformType::Vec3Array(i) | UniformType::FloatArray(i)
        | UniformType::UIntArray(i) => " ["@ + decimal_text(i as nat) + "];"@,
        _ => ";"@,
    }
}

/// An array uniform of `n` elements is declared as its element type with the suffix
/// " [n];", and takes `n` std140 slots of 16 bytes (64 for a mat4 element); a uniform that is
/// not an array ends with ";" alone.
pub proof fn lemma_uniform_array_declarations(n: u16)
    ensures
        uniform_type_text(UniformType::UIntArray(n)) == uniform_type_text(UniformType::UInt),
        uniform_type_text(UniformType::FloatArray(n)) == uniform_type_text(UniformType::Float),
        uniform_type_text(UniformType::Vec3Array(n)) == uniform_type_text(UniformType::Vec3),
        uniform_type_text(UniformType::Vec4Array(n)) == uniform_type_text(UniformType::Vec4),
        uniform_type_text(UniformType::Mat4Array(n)) == uniform_type_text(UniformType::Mat4x4Float),
        uniform_array_text(UniformType::UIntArray(n)) == " ["@ + decimal_text(n as nat) + "]"@ + ";"@,
        uniform_array_text(UniformType::FloatArray(n)) == " ["@ + decimal_text(n as nat) + "]"@ + ";"@,
        uniform_array_text(UniformType::Vec3Array(n)) == " ["@ + decimal_text(n as nat) + "]"@ + ";"@,
        uniform_array_text(UniformType::Vec4Array(n)) == " ["@ + decimal_text(n as nat) + "]"@ + ";"@,
        uniform_array_text(UniformType::Mat4Array(n)) == " ["@ + decimal_text(n as nat) + "]"@ + ";"@,
        uniform_size(UniformType::UIntArray(n)) == n * 16,
        uniform_size(UniformType::FloatArray(n)) == n * 16,
        uniform_size(UniformType::Vec3Array(n)) == n * 16,
        uniform_size(UniformType::Vec4Array(n)) == n * 16,
        uniform_size(UniformType::Mat4Array(n)) == n * 64,
        uniform_array_text(UniformType::Vec3) == ";"@,
        uniform_array_text(UniformType::Vec4) == ";"@,
        uniform_array_text(UniformType::Mat4x4Float) == ";"@,
        uniform_array_text(UniformType::Int) == ";"@,
        uniform_array_text(UniformType::UInt) == ";"@,
        uniform_array_text(UniformType::Float) == ";"@,
{
    reveal_strlit("];");
    reveal_strlit("]");
    reveal_strlit(";");
    assert(" ["@ + decimal_text(n as nat) + "];"@ =~= " ["@ + decimal_text(n as nat) + "]"@ + ";"@);
}

/// The declaration of a uniform within its block.
pub open spec fn uniform_member_line(u: Uniform) -> Seq<char> {
    "\t"@ + uniform_type_text(u.uniform_type) + " "@ + u.name@ + uniform_array_text(u.uniform_type) + "\n"@
}

/// The declarations of `uniforms`, in order.
pub open spec fn uniform_members_text(uniforms: Seq<Uniform>) -> Seq<char>
    decreases uniforms.len(),
{
    if uniforms.len() == 0 {
        Seq::<char>::empty()
    } else {
        uniform_members_text(uniforms.drop_last()) + uniform_member_line(uniforms.last())
    }
}

/// The declaration of a uniform block at the binding point `binding`.
pub open spec fn uniform_block_text(block: UniformBlock, binding: nat) -> Seq<char> {
    "layout (std140, binding = "@ + decimal_text(binding) + ") uniform "@ + block.block_name@ + "\n{"@
        + uniform_members_text(block.uniforms@) + "};\n\n"@
}

/// The declarations of `blocks`, at consecutive binding points from `start`.
pub open spec fn uniform_blocks_text(blocks: Seq<UniformBlock>, start: nat) -> Seq<char>
    decreases blocks.len(),
{
    if blocks.len() == 0 {
        Seq::<char>::empty()
    } else {
        uniform_blocks_text(blocks.drop_last(), start) + uniform_block_text(
            blocks.last(),
            (start + blocks.len() - 1) as nat,
        )
    }
}

fn uniform_array_string(t: UniformType) -> (r: String)
    ensures
        r@ == uniform_array_text(t),
{
    match t {
        UniformType::Mat4Array(i) | UniformType::Vec4Array(i) | UniformType::Vec3Array(i) | UniformType::FloatArray(i)
        | UniformType::UIntArray(i) => {
            let mut a = String::from_str(" [");
            a.append(decimal_string(i as u64).as_str());
            a.append("];");
            a
        },
        _ => String::from_str(";"),
    }
}

fn uniform_block_string(block: &UniformBlock, binding: u32) -> (r: String)
    ensures
        r@ == uniform_block_text(*block, binding as nat),
{
    let mut body = String::from_str("");
    proof {
        reveal_strlit("");
    }
    let mut j: usize = 0;
    while j < block.uniforms.len()
        invariant
            j <= block.uniforms.len(),
            body@ == uniform_members_text(block.uniforms@.take(j as int)),
        decreases block.uniforms.len() - j,
    {
        let uniform = &block.uniforms[j];
        body.append("\t");
        body.append(uniform.uniform_type.to_string().as_str());
        body.append(" ");
        body.append(uniform.name.as_str());
        body.append(uniform_array_string(uniform.uniform_type).as_str());
        body.append("\n");
        proof {
            let us = block.uniforms@;
            assert(us.take(j + 1).drop_last() =~= us.take(j as int));
            assert(us.take(j + 1).last() == us[j as int]);
            assert(body@ =~= uniform_members_text(us.take(j + 1)));
        }
        j = j + 1;
    }
    assert(block.uniforms@.take(block.uniforms.len() as int) =~= block.uniforms@);
    let mut text = String::from_str("layout (std140, binding = ");
    text.append(decimal_string(binding as u64).as_str());
    text.append(") uniform ");
    text.append(block.block_name.as_str());
    text.append("\n{");
    text.append(body.as_str());
    text.append("};\n\n");
    text
}

/// Appends the declarations of `blocks` at binding points from `start`.
fn append_uniform_blocks(storage: &mut String, blocks: &Vec<UniformBlock>, start: u32)
    requires
        start + blocks.len() <= u32::MAX,
    ensures
        final(storage)@ == old(storage)@ + uniform_blocks_text(blocks@, start as nat),
{
    let mut i: usize = 0;
    while i < blocks.len()
        invariant
            start + blocks.len() <= u32::MAX,
            i <= blocks.len(),
            storage@ == old(storage)@ + uniform_blocks_text(blocks@.take(i as int), start as nat),
        decreases blocks.len() - i,
    {
        let text = uniform_block_string(&blocks[i], start + i as u32);
        storage.append(text.as_str());
        proof {
            assert(blocks@.take(i + 1).drop_last() =~= blocks@.take(i as int));
            assert(blocks@.take(i + 1).last() == blocks@[i as int]);
            assert(storage@ =~= old(storage)@ + uniform_blocks_text(blocks@.take(i + 1), start as nat));
        }
        i = i + 1;
    }
    assert(blocks@.take(blocks.len() as int) =~= blocks@);
}

/// Writes the uniform block declarations: the vertex shader's blocks take binding points
/// from 0, and the fragment shader's blocks the binding points after them.
pub fn extract_uniforms(
    vertex_shader_uniforms: &Vec<UniformBlock>,
    frag_shader_uniforms: &Vec<UniformBlock>,
    dynamic_vertex: &mut DynamicVertexShaderGeneration,
    dynamic_frag: &mut DynamicFragmentShaderGeneration,
)
    requires
        vertex_shader_uniforms.len() + frag_shader_uniforms.len() <= u32::MAX,
    ensures
        final(dynamic_vertex).uniforms@ == old(dynamic_vertex).uniforms@ + uniform_blocks_text(vertex_shader_uniforms@, 0),
        final(dynamic_frag).uniforms@ == old(dynamic_frag).uniforms@ + uniform_blocks_text(
            frag_shader_uniforms@,
            vertex_shader_uniforms.len() as nat,
        ),
        *final(dynamic_vertex) == (DynamicVertexShaderGeneration { uniforms: final(dynamic_vertex).uniforms, ..*old(dynamic_vertex) }),
        *final(dynamic_frag) == (DynamicFragmentShaderGeneration { uniforms: final(dynamic_frag).uniforms, ..*old(dynamic_frag) }),
{
    append_uniform_blocks(&mut dynamic_vertex.uniforms, vertex_shader_uniforms, 0);
    append_uniform_blocks(&mut dynamic_frag.uniforms, frag_shader_uniforms, vertex_shader_uniforms.len() as u32);
}

/// How a buffer binds to a vertex array binding point.
#[derive(Copy, Clone, Debug)]
pub struct BindingInformation {
    binding_point: u32,
    offset: isize,
    stride: i32,
}

impl BindingInformation {
    /// The binding point.
    pub closed spec fn spec_binding_point(&self) -> u32 {
        self.binding_point
    }

    /// The offset into the buffer.
    pub closed spec fn spec_offset(&self) -> isize {
        self.offset
    }

    /// The distance between consecutive elements.
    pub closed spec fn spec_stride(&self) -> i32 {
        self.stride
    }

    /// Specifies a binding of a buffer to a binding point.
    pub fn new(binding_point: u32, offset: isize, stride: i32) -> (r: BindingInformation)
        ensures
            r.spec_binding_point() == binding_point,
            r.spec_offset() == offset,
            r.spec_stride() == stride,
    {
        BindingInformation { binding_point, offset, stride }
    }

    /// The binding point.
    pub fn binding_point(&self) -> (r: u32)
        ensures
            r == self.spec_binding_point(),
    {
        self.binding_point
    }

    /// The offset into the buffer.
    pub fn offset(&self) -> (r: isize)
        ensures
            r == self.spec_offset(),
    {
        self.offset
    }

    /// The distance between consecutive elements.
    pub fn stride(&self) -> (r: i32)
        ensures
            r == self.spec_stride(),
    {
        self.stride
    }
}

/// The kind of the components of a vertex attribute.
#[derive(Copy, Clone, Debug, PartialEq, Eq, Structural)]
pub enum ComponentKind {
    Int,
    UnsignedInt,
    Float,
}

/// The format of one vertex attribute location.
#[derive(Copy, Clone, Debug)]
pub struct LayoutFormat {
    pub index: u32,
    pub component_count: i32,
    pub kind: ComponentKind,
    pub relative_offset: u32,
}

/// The bindings of a vertex layout, the number of attribute locations it uses and its GLSL type.
pub struct LayoutBindingInformation {
    pub binding_info: Vec<BindingInformation>,
    pub num_layouts_used: u32,
    pub glsl_type: String,
}

/// The number of attribute locations a layout type uses.
pub open spec fn layouts_used(t: LayoutType) -> nat {
    match t {
        LayoutType::Mat4x4Float => 4,
        _ => 1,
    }
}

/// The GLSL type a vertex layout of type `t` is declared with.
pub open spec fn layout_glsl_text(t: LayoutType) -> Seq<char> {
    match t {
        LayoutType::Vec2Uint => "uvec2"@,
        LayoutType::Vec2Int => "ivec2"@,
        LayoutType::Vec2Float => "vec2"@,
        LayoutType::Vec3Float => "vec3"@,
        LayoutType::Vec4Float => "vec4"@,
        LayoutType::Vec3Uint => "uvec3"@,
        LayoutType::Vec4Uint => "uvec4"@,
        LayoutType::Mat4x4Float => "mat4"@,
    }
}

/// The size in bytes of one vertex's data of a layout of type `t`.
pub open spec fn layout_stride(t: LayoutType) -> int {
    match t {
        LayoutType::Vec2Uint | LayoutType::Vec2Int | LayoutType::Vec2Float => 8,
        LayoutType::Vec3Float | LayoutType::Vec3Uint => 12,
        LayoutType::Vec4Float | LayoutType::Vec4Uint => 16,
        LayoutType::Mat4x4Float => 64,
    }
}

/// The number of components, and their kind, of one attribute location of a layout type.
pub open spec fn layout_components(t: LayoutType) -> (int, ComponentKind) {
    match t {
        LayoutType::Vec2Uint => (2, ComponentKind::UnsignedInt),
        LayoutType::Vec2Int => (2, ComponentKind::Int),
        LayoutType::Vec2Float => (2, ComponentKind::Float),
        LayoutType::Vec3Float => (3, ComponentKind::Float),
        LayoutType::Vec4Float => (4, ComponentKind::Float),
        LayoutType::Vec3Uint => (3, ComponentKind::UnsignedInt),
        LayoutType::Vec4Uint => (4, ComponentKind::UnsignedInt),
        LayoutType::Mat4x4Float => (4, ComponentKind::Float),
    }
}

/// A vertex of a layout takes the byte size of its GLSL type: 4 bytes for each component of
/// each attribute location it uses (vec2/ivec2/uvec2 8, vec3/uvec3 12, vec4/uvec4 16, mat4
/// 64), and the columns of a matrix lie 16 bytes, one column of four components, apart.
pub proof fn lemma_layout_strides(t: LayoutType)
    ensures
        layout_stride(t) == 4 * layout_components(t).0 * layouts_used(t),
        layouts_used(t) > 1 ==> 4 * layout_components(t).0 == 16,
        layout_stride(LayoutType::Vec2Float) == 8,
        layout_stride(LayoutType::Vec2Int) == 8,
        layout_stride(LayoutType::Vec2Uint) == 8,
        layout_stride(LayoutType::Vec3Float) == 12,
        layout_stride(LayoutType::Vec3Uint) == 12,
        layout_stride(LayoutType::Vec4Float) == 16,
        layout_stride(LayoutType::Vec4Uint) == 16,
        layout_stride(LayoutType::Mat4x4Float) == 64,
{
    match t {
        LayoutType::Mat4x4Float => assert(4 * 4 * 4 == 64),
        _ => assert(layouts_used(t) == 1),
    }
}

/// The binding information of a vertex layout of type `layout` at attribute location `index`:
/// each location it uses gets its own buffer binding at offset 0.
pub fn create_layout_binding_information(layout: LayoutType, index: u32) -> (r: LayoutBindingInformation)
    requires
        index + layouts_used(layout) <= u32::MAX + 1,
    ensures
        r.num_layouts_used == layouts_used(layout),
        r.glsl_type@ == layout_glsl_text(layout),
        r.binding_info.len() == layouts_used(layout),
        forall|k: int|
            0 <= k < r.binding_info.len() ==> (#[trigger] r.binding_info@[k]).spec_binding_point() == index + k
                && r.binding_info@[k].spec_offset() == 0 && r.binding_info@[k].spec_stride() == layout_stride(layout),
{
    match layout {
        LayoutType::Vec2Uint => LayoutBindingInformation {
            binding_info: vec![BindingInformation::new(index, 0, 8)],
            num_layouts_used: 1,
            glsl_type: String::from_str("uvec2"),
        },
        LayoutType::Vec2Int => LayoutBindingInformation {
            binding_info: vec![BindingInformation::new(index, 0, 8)],
            num_layouts_used: 1,
            glsl_type: String::from_str("ivec2"),
        },
        LayoutType::Vec2Float => LayoutBindingInformation {
            binding_info: vec![BindingInformation::new(index, 0, 8)],
            num_layouts_used: 1,
            glsl_type: String::from_str("vec2"),
        },
        LayoutType::Vec3Float => LayoutBindingInformation {
            binding_info: vec![BindingInformation::new(index, 0, 12)],
            num_layouts_used: 1,
            glsl_type: String::from_str("vec3"),
        },
        LayoutType::Vec4Float => LayoutBindingInformation {
            binding_info: vec![BindingInformation::new(index, 0, 16)],
            num_layouts_used: 1,
            glsl_type: String::from_str("vec4"),
        },
        LayoutType::Vec3Uint => LayoutBindingInformation {
            binding_info: vec![BindingInformation::new(index, 0, 12)],
            num_layouts_used: 1,
            glsl_type: String::from_str("uvec3"),
        },
        LayoutType::Vec4Uint => LayoutBindingInformation {
            binding_info: vec![BindingInformation::new(index, 0, 16)],
            num_layouts_used: 1,
            glsl_type: String::from_str("uvec4"),
        },
        LayoutType::Mat4x4Float => LayoutBindingInformation {
            binding_info: vec![
                BindingInformation::new(index, 0, 64),
                BindingInformation::new(index + 1, 0, 64),
                BindingInformation::new(index + 2, 0, 64),
                BindingInformation::new(index + 3, 0, 64),
            ],
            num_layouts_used: 4,
            glsl_type: String::from_str("mat4"),
        },
    }
}

/// The formats of the attribute locations of a vertex layout of type `layout` at location
/// `index`: a matrix uses four locations, one per column, 16 bytes apart.
pub fn layout_formats(layout: LayoutType, index: u32) -> (r: Vec<LayoutFormat>)
    requires
        index + layouts_used(layout) <= u32::MAX + 1,
    ensures
        r.len() == layouts_used(layout),
        forall|k: int|
            0 <= k < r.len() ==> (#[trigger] r@[k]).index == index + k && r@[k].component_count == layout_components(
                layout,
            ).0 && r@[k].kind == layout_components(layout).1 && r@[k].relative_offset == 16 * k,
{
    match layout {
        LayoutType::Vec2Uint => vec![LayoutFormat { index, component_count: 2, kind: ComponentKind::UnsignedInt, relative_offset: 0 }],
        LayoutType::Vec2Int => vec![LayoutFormat { index, component_count: 2, kind: ComponentKind::Int, relative_offset: 0 }],
        LayoutType::Vec2Float => vec![LayoutFormat { index, component_count: 2, kind: ComponentKind::Float, relative_offset: 0 }],
        LayoutType::Vec3Float => vec![LayoutFormat { index, component_count: 3, kind: ComponentKind::Float, relative_offset: 0 }],
        LayoutType::Vec4Float => vec![LayoutFormat { index, component_count: 4, kind: ComponentKind::Float, relative_offset: 0 }],
        LayoutType::Vec3Uint => vec![LayoutFormat { index, component_count: 3, kind: ComponentKind::UnsignedInt, relative_offset: 0 }],
        LayoutType::Vec4Uint => vec![LayoutFormat { index, component_count: 4, kind: ComponentKind::UnsignedInt, relative_offset: 0 }],
        LayoutType::Mat4x4Float => vec![
            LayoutFormat { index, component_count: 4, kind: ComponentKind::Float, relative_offset: 0 },
            LayoutFormat { index: index + 1, component_count: 4, kind: ComponentKind::Float, relative_offset: 16 },
            LayoutFormat { index: index + 2, component_count: 4, kind: ComponentKind::Float, relative_offset: 32 },
            LayoutFormat { index: index + 3, component_count: 4, kind: ComponentKind::Float, relative_offset: 48 },
        ],
    }
}

/// Whether a vertex layout's buffer advances per vertex (`Divisor0`) or per instance
/// (`Divisor1`), with its number of buffers and the size in bytes of each.
#[derive(Copy, Clone, Debug)]
pub enum LayoutInstance {
    Divisor0(usize, isize),
    Divisor1(usize, isize),
}

/// Whether a vertex layout holds model data or instance data.
#[derive(Copy, Clone, Debug, PartialEq, Eq, Structural)]
pub enum LayoutUse {
    PerModel,
    PerInstance,
}

/// The information required to specify a vertex layout.
pub struct LayoutInformation {
    pub data_type: LayoutType,
    pub instance: LayoutInstance,
    pub layout_use: LayoutUse,
    pub name: String,
}

impl LayoutInformation {
    /// Specifies a vertex layout.
    pub fn new(data_type: LayoutType, instance: LayoutInstance, layout_use: LayoutUse, name: String) -> (r: LayoutInformation)
        ensures
            r.data_type == data_type,
            r.instance == instance,
            r.layout_use == layout_use,
            r.name == name,
    {
        LayoutInformation { data_type, instance, layout_use, name }
    }
}

/// The attribute location of the vertex layout at position `k`: the locations the layouts
/// before it use, added up.
pub open spec fn layout_location(infos: Seq<LayoutInformation>, k: nat) -> nat
    decreases k,
{
    if k == 0 {
        0
    } else {
        layout_location(infos, (k - 1) as nat) + layouts_used(infos[k - 1].data_type)
    }
}

/// The declaration of the vertex layout `info` at attribute location `location`.
pub open spec fn vertex_layout_line(location: nat, info: LayoutInformation) -> Seq<char> {
    "layout (location = "@ + decimal_text(location) + ") in "@ + layout_glsl_text(info.data_type) + " "@ + info.name@
        + ";\n"@
}

/// The declarations of the first `k` vertex layouts.
pub open spec fn vertex_layouts_text(infos: Seq<LayoutInformation>, k: nat) -> Seq<char>
    decreases k,
{
    if k == 0 {
        Seq::<char>::empty()
    } else {
        vertex_layouts_text(infos, (k - 1) as nat) + vertex_layout_line(
            layout_location(infos, (k - 1) as nat),
            infos[k - 1],
        )
    }
}

/// The locations of the first `k` vertex layouts whose use is `layout_use`, in order.
pub open spec fn locations_with_use(infos: Seq<LayoutInformation>, k: nat, layout_use: LayoutUse) -> Seq<u32>
    decreases k,
{
    if k == 0 {
        Seq::<u32>::empty()
    } else if infos[k - 1].layout_use == layout_use {
        locations_with_use(infos, (k - 1) as nat, layout_use).push(layout_location(infos, (k - 1) as nat) as u32)
    } else {
        locations_with_use(infos, (k - 1) as nat, layout_use)
    }
}

/// A location never decreases along the layouts.
pub proof fn lemma_layout_location_monotone(infos: Seq<LayoutInformation>, j: nat, k: nat)
    requires
        j <= k,
    ensures
        layout_location(infos, j) <= layout_location(infos, k),
    decreases k,
{
    if j < k {
        lemma_layout_location_monotone(infos, j, (k - 1) as nat);
    }
}

/// Where each vertex layout is placed and how it binds.
pub struct VertexLayoutPlan {
    /// The attribute location of each layout.
    pub locations: Vec<u32>,
    /// The buffer bindings of each layout.
    pub bindings: Vec<LayoutBindingInformation>,
    /// The locations of the layouts holding model data.
    pub model_layout_indexes: Vec<u32>,
    /// The locations of the layouts holding instance data.
    pub instance_layout_indexes: Vec<u32>,
}

/// Places the first-pass vertex layouts at consecutive attribute locations, declares them in
/// the vertex shader, and sorts their locations into model and instance layouts.
pub fn create_first_pass_vertex_layouts(
    layout_info: &Vec<LayoutInformation>,
    dynamic_vertex: &mut DynamicVertexShaderGeneration,
) -> (r: VertexLayoutPlan)
    requires
        layout_location(layout_info@, layout_info.len() as nat) + 3 <= u32::MAX,
    ensures
        r.locations.len() == layout_info.len(),
        r.bindings.len() == layout_info.len(),
        forall|k: int| 0 <= k < layout_info.len() ==> #[trigger] r.locations@[k] == layout_location(layout_info@, k as nat),
        forall|k: int|
            0 <= k < layout_info.len() ==> (#[trigger] r.bindings@[k]).num_layouts_used == layouts_used(
                layout_info@[k].data_type,
            ) && r.bindings@[k].glsl_type@ == layout_glsl_text(layout_info@[k].data_type)
                && r.bindings@[k].binding_info.len() == layouts_used(layout_info@[k].data_type) && forall|j: int|
                0 <= j < r.bindings@[k].binding_info.len() ==> (#[trigger] r.bindings@[k].binding_info@[j]).spec_binding_point()
                    == layout_location(layout_info@, k as nat) + j && r.bindings@[k].binding_info@[j].spec_offset() == 0
                    && r.bindings@[k].binding_info@[j].spec_stride() == layout_stride(layout_info@[k].data_type),
        r.model_layout_indexes@ == locations_with_use(layout_info@, layout_info.len() as nat, LayoutUse::PerModel),
        r.instance_layout_indexes@ == locations_with_use(layout_info@, layout_info.len() as nat, LayoutUse::PerInstance),
        final(dynamic_vertex).layout@ == old(dynamic_vertex).layout@ + vertex_layouts_text(
            layout_info@,
            layout_info.len() as nat,
        ),
        *final(dynamic_vertex) == (DynamicVertexShaderGeneration { layout: final(dynamic_vertex).layout, ..*old(dynamic_vertex) }),
{
    let ghost infos = layout_info@;
    let mut locations: Vec<u32> = Vec::new();
    let mut bindings: Vec<LayoutBindingInformation> = Vec::new();
    let mut model_layout_indexes: Vec<u32> = Vec::new();
    let mut instance_layout_indexes: Vec<u32> = Vec::new();
    let mut layout_index: u32 = 0;
    let mut k: usize = 0;
    while k < layout_info.len()
        invariant
            infos == layout_info@,
            layout_location(infos, infos.len() as nat) + 3 <= u32::MAX,
            k <= infos.len(),
            layout_index == layout_location(infos, k as nat),
            locations.len() == k,
            bindings.len() == k,
            forall|i: int| 0 <= i < k ==> #[trigger] locations@[i] == layout_location(infos, i as nat),
            forall|i: int|
                0 <= i < k ==> (#[trigger] bindings@[i]).num_layouts_used == layouts_used(infos[i].data_type)
                    && bindings@[i].glsl_type@ == layout_glsl_text(infos[i].data_type) && bindings@[i].binding_info.len()
                    == layouts_used(infos[i].data_type) && forall|j: int|
                    0 <= j < bindings@[i].binding_info.len() ==> (#[trigger] bindings@[i].binding_info@[j]).spec_binding_point()
                        == layout_location(infos, i as nat) + j && bindings@[i].binding_info@[j].spec_offset() == 0
                        && bindings@[i].binding_info@[j].spec_stride() == layout_stride(infos[i].data_type),
            model_layout_indexes@ == locations_with_use(infos, k as nat, LayoutUse::PerModel),
            instance_layout_indexes@ == locations_with_use(infos, k as nat, LayoutUse::PerInstance),
            dynamic_vertex.layout@ == old(dynamic_vertex).layout@ + vertex_layouts_text(infos, k as nat),
            *dynamic_vertex == (DynamicVertexShaderGeneration { layout: dynamic_vertex.layout, ..*old(dynamic_vertex) }),
        decreases infos.len() - k,
    {
        let info = &layout_info[k];
        proof {
            lemma_layout_location_monotone(infos, (k + 1) as nat, infos.len() as nat);
            lemma_layout_location_monotone(infos, k as nat, infos.len() as nat);
        }
        let layout_binding_info = create_layout_binding_information(info.data_type, layout_index);
        if info.layout_use == LayoutUse::PerModel {
            model_layout_indexes.push(layout_index);
        } else {
            instance_layout_indexes.push(layout_index);
        }
        let mut line = String::from_str("layout (location = ");
        line.append(decimal_string(layout_index as u64).as_str());
        line.append(") in ");
        line.append(layout_binding_info.glsl_type.as_str());
        line.append(" ");
        line.append(info.name.as_str());
        line.append(";\n");
        dynamic_vertex.layout.append(line.as_str());
        locations.push(layout_index);
        let used = layout_binding_info.num_layouts_used;
        bindings.push(layout_binding_info);
        layout_index = layout_index + used;
        k = k + 1;
    }
    VertexLayoutPlan { locations, bindings, model_layout_indexes, instance_layout_indexes }
}

/// The format of the texture a fragment layout writes to.
#[derive(Copy, Clone, Debug, PartialEq, Eq, Structural)]
pub enum TextureFormat {
    Depth,
    DepthStencil,
    RGB,
    RGBA,
    SRGBA,
    RGBA16F,
    RG8,
}

/// A fragment shader layout and the texture it writes to.
pub struct FragLayoutInformation {
    pub data_type: LayoutType,
    pub backing_texture_format: TextureFormat,
    pub initial_fbo_size: (i32, i32),
    pub name: String,
}

impl FragLayoutInformation {
    /// Specifies a fragment layout writing to a texture of the given format and size.
    pub fn new(data_type: LayoutType, texture_format: TextureFormat, window_resolution: (i32, i32), name: String) -> (r: FragLayoutInformation)
        ensures
            r.data_type == data_type,
            r.backing_texture_format == texture_format,
            r.initial_fbo_size == window_resolution,
            r.name == name,
    {
        FragLayoutInformation { data_type, name, initial_fbo_size: window_resolution, backing_texture_format: texture_format }
    }
}

/// The g-buffer bindings the second render pass reads the first pass's layouts through.
pub struct GBufferLayouts {
    pub layouts: String,
    pub number_layouts: u32,
}

impl GBufferLayouts {
    /// No g-buffer bindings.
    pub fn new() -> (r: GBufferLayouts)
        ensures
            r.layouts@ == Seq::<char>::empty(),
            r.number_layouts == 0,
    {
        proof {
            reveal_strlit("");
        }
        GBufferLayouts { layouts: String::from_str(""), number_layouts: 0 }
    }
}

/// The declaration of the fragment layout `info` at output location `location`.
pub open spec fn frag_layout_line(location: nat, info: FragLayoutInformation) -> Seq<char> {
    "layout (location = "@ + decimal_text(location) + ") out "@ + layout_type_text(info.data_type) + " "@ + info.name@
        + ";\n"@
}

/// The declarations of the fragment layouts `infos`, at output locations from 0.
pub open spec fn frag_layouts_text(infos: Seq<FragLayoutInformation>) -> Seq<char>
    decreases infos.len(),
{
    if infos.len() == 0 {
        Seq::<char>::empty()
    } else {
        frag_layouts_text(infos.drop_last()) + frag_layout_line((infos.len() - 1) as nat, infos.last())
    }
}

/// The names of the fragment layouts.
pub open spec fn frag_layout_names(infos: Seq<FragLayoutInformation>) -> Seq<Seq<char>> {
    infos.map_values(|l: FragLayoutInformation| l.name@)
}

/// Declares the first pass's fragment layouts, which write to the g-buffer, and the g-buffer
/// texture bindings through which the second pass reads them, under the same names.
pub fn extract_frag_layouts(
    layouts: &Vec<FragLayoutInformation>,
    dynamic_frag: &mut DynamicFragmentShaderGeneration,
    g_buffer_textures: &mut GBufferLayouts,
)
    requires
        layouts.len() <= u32::MAX,
    ensures
        final(dynamic_frag).layout@ == old(dynamic_frag).layout@ + frag_layouts_text(layouts@),
        final(g_buffer_textures).layouts@ == old(g_buffer_textures).layouts@ + sampler_lines(
            frag_layout_names(layouts@),
            0,
            "sampler2DArray"@,
        ),
        final(g_buffer_textures).number_layouts == layouts.len(),
        *final(dynamic_frag) == (DynamicFragmentShaderGeneration { layout: final(dynamic_frag).layout, ..*old(dynamic_frag) }),
{
    g_buffer_textures.number_layouts = layouts.len() as u32;
    let ghost names = frag_layout_names(layouts@);
    let mut index: usize = 0;
    while index < layouts.len()
        invariant
            layouts.len() <= u32::MAX,
            names == frag_layout_names(layouts@),
            index <= layouts.len(),
            g_buffer_textures.number_layouts == layouts.len(),
            dynamic_frag.layout@ == old(dynamic_frag).layout@ + frag_layouts_text(layouts@.take(index as int)),
            g_buffer_textures.layouts@ == old(g_buffer_textures).layouts@ + sampler_lines(
                names.take(index as int),
                0,
                "sampler2DArray"@,
            ),
            *dynamic_frag == (DynamicFragmentShaderGeneration { layout: dynamic_frag.layout, ..*old(dynamic_frag) }),
        decreases layouts.len() - index,
    {
        let layout = &layouts[index];
        let mut line = String::from_str("layout (location = ");
        line.append(decimal_string(index as u64).as_str());
        line.append(") out ");
        line.append(layout.data_type.to_string().as_str());
        line.append(" ");
        line.append(layout.name.as_str());
        line.append(";\n");
        dynamic_frag.layout.append(line.as_str());
        let binding = sampler_string(index as u32, "sampler2DArray", layout.name.as_str());
        g_buffer_textures.layouts.append(binding.as_str());
        proof {
            assert(layouts@.take(index + 1).drop_last() =~= layouts@.take(index as int));
            assert(layouts@.take(index + 1).last() == layouts@[index as int]);
            assert(dynamic_frag.layout@ =~= old(dynamic_frag).layout@ + frag_layouts_text(layouts@.take(index + 1)));
            assert(names.take(index + 1).drop_last() =~= names.take(index as int));
            assert(names.take(index + 1).last() == layouts@[index as int].name@);
            assert(g_buffer_textures.layouts@ =~= old(g_buffer_textures).layouts@ + sampler_lines(
                names.take(index + 1),
                0,
                "sampler2DArray"@,
            ));
        }
        index = index + 1;
    }
    assert(layouts@.take(layouts.len() as int) =~= layouts@);
    assert(names.take(layouts.len() as int) =~= names);
}

/// The second pass's fragment layouts are the g-buffer bindings, followed by the shadow maps'
/// binding when they are included; returns the shadow maps' binding point.
pub fn second_pass_frag_layouts(
    include_shadow_maps: bool,
    g_buffer_textures: &GBufferLayouts,
    dynamic_frag: &mut DynamicFragmentShaderGeneration,
) -> (r: Option<u32>)
    ensures
        final(dynamic_frag).layout@ == g_buffer_textures.layouts@ + (if include_shadow_maps {
            sampler_line(g_buffer_textures.number_layouts as nat, "sampler2DArray"@, "shadowMaps"@)
        } else {
            Seq::<char>::empty()
        }),
        r == (if include_shadow_maps {
            Some(g_buffer_textures.number_layouts)
        } else {
            None::<u32>
        }),
        *final(dynamic_frag) == (DynamicFragmentShaderGeneration { layout: final(dynamic_frag).layout, ..*old(dynamic_frag) }),
{
    dynamic_frag.layout = g_buffer_textures.layouts.clone();
    if include_shadow_maps {
        let line = sampler_string(g_buffer_textures.number_layouts, "sampler2DArray", "shadowMaps");
        dynamic_frag.layout.append(line.as_str());
        Some(g_buffer_textures.number_layouts)
    } else {
        proof {
            assert(dynamic_frag.layout@ =~= g_buffer_textures.layouts@ + Seq::<char>::empty());
        }
        None
    }
}

} // verus!
