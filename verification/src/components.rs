//! Component and marker types whose identity the engine's logic reads.

use crate::decimal::{decimal_string, decimal_text};
use crate::entity_id::EntityId;
use crate::model_definitions::ModelId;
use crate::shader_text::BindingInformation;
use crate::type_identifier::TypeIdentifier;
use std::any::TypeId;
use vstd::prelude::*;
use vstd::string::*;

verus! {

/// Marks an entity as a directional light.
pub struct DirectionLight;

/// Marks an entity as a point light.
pub struct PointLight;

/// Marks an entity as a spot light.
pub struct SpotLight;

/// Marks an entity as drawn with a border outline.
#[derive(Copy, Clone)]
pub struct BorderOutline;

/// The type of light to find when searching for nearby lights. Each value is the group, in
/// the entity-component store's sortable groups, of the entities with that light type.
#[derive(Copy, Clone, Debug, PartialEq, Eq, Structural)]
pub enum FindLightType {
    Directional,
    Point,
    Spot,
}

impl FindLightType {
    /// The sortable group of the light type.
    pub fn sortable_index(&self) -> (r: usize)
        ensures
            r == match *self {
                FindLightType::Directional => 1usize,
                FindLightType::Point => 2usize,
                FindLightType::Spot => 3usize,
            },
    {
        match *self {
            FindLightType::Directional => 1,
            FindLightType::Point => 2,
            FindLightType::Spot => 3,
        }
    }
}

/// Marks an entity as lying outside the world bounds.
#[derive(Copy, Clone)]
pub struct IsOutOfBounds;

/// The entity that owns an entity.
#[derive(Copy, Clone)]
pub struct ParentEntity {
    pub entity: EntityId,
}

/// Marks an entity whose movement can cause collisions.
#[derive(Copy, Clone)]
pub struct CanCauseCollisions;

/// Marks an entity that has moved.
#[derive(Copy, Clone)]
pub struct HasMoved;

/// Marks an entity that has rotated.
#[derive(Copy, Clone)]
pub struct HasRotated;

/// Marks an entity that is not static.
#[derive(Copy, Clone)]
pub struct DynamicObject;

/// The world section an entity is in.
#[derive(Copy, Clone)]
pub struct WorldSection(pub u32);

/// Marks the entity controlled by the user.
pub struct UserEntity;

/// The type identifier of the user's entity type.
pub fn user_type_identifier() -> TypeIdentifier {
    TypeIdentifier::of::<UserEntity>()
}

/// The maximum number of lights of each kind a render system takes into account.
#[derive(Copy, Clone)]
pub struct MaxNumLights {
    pub directional: u16,
    pub point: u16,
    pub spot: u16,
}

/// A contiguous range of instances to draw.
#[derive(Copy, Clone)]
pub struct InstanceRange {
    pub begin_instance: u32,
    pub count: u32,
}

/// Rendering information to draw one mesh of a model.
#[derive(Copy, Clone, Debug)]
pub struct MeshRenderingInformation {
    pub indice_count: i32,
    pub vertex_offset: i32,
    pub indice_offset: usize,
}

impl MeshRenderingInformation {
    /// Creates rendering information with every value 0.
    pub fn new() -> (r: MeshRenderingInformation)
        ensures
            r.indice_count == 0,
            r.vertex_offset == 0,
            r.indice_offset == 0,
    {
        MeshRenderingInformation { indice_count: 0, vertex_offset: 0, indice_offset: 0 }
    }
}

/// Whether a collectible currency was taken.
#[derive(Copy, Clone)]
pub struct Currency {
    pub currency_taken: bool,
}

/// Whether the sky box is drawn, as a shader uniform value.
#[derive(Copy, Clone)]
pub struct UseSkyBox {
    pub use_sky_box: i32,
}

/// The light limits of a render system, if it applies lights.
#[derive(Copy, Clone)]
pub enum MaxLightConstraints {
    Constraints(MaxNumLights),
    NotApplicable,
}

/// The model a model name refers to, and whether the model uses textures.
#[derive(Copy, Clone)]
pub struct ModelNameLookupResult {
    pub model_id: ModelId,
    pub uses_texture: bool,
}

/// What a buffer holds: indices, vertex data bound through the given bindings, or the
/// uniforms of the block with the given binding point.
pub enum BufferType {
    IndiceArray,
    NonIndiceArray(Vec<BindingInformation>),
    UniformBufferArray(u32),
}

/// Why waiting for a buffer to be free for writing failed.
#[derive(Copy, Clone, Debug)]
pub enum WaitResult {
    Timeout,
    UnknownFailure,
}

/// The data that must be the source of a uniform's update: its type and number of elements.
pub struct ExpectedUniformData {
    pub type_id: TypeId,
    pub num_elements: u16,
}

/// The binding point of a uniform block.
#[derive(Copy, Clone, Debug, PartialEq, Eq, Structural)]
pub enum UniformBinding {
    Point0,
    Point1,
}

/// A uniform value of type `int`.
#[derive(Copy, Clone)]
pub struct UniformInt(pub i32);

/// A uniform value of type `uint`.
#[derive(Copy, Clone)]
pub struct UniformUint(pub u32);

/// A uniform array of `uint` values.
#[derive(Clone)]
pub struct UniformUIntArray(pub Vec<u32>);

/// The buffers that hold a render system's indices.
#[derive(Copy, Clone, Debug)]
pub struct IndiceInformation {
    pub number_buffers: usize,
    pub buffer_size_bytes: isize,
}

impl IndiceInformation {
    /// Specifies the buffers for indices.
    pub fn new(number_buffers: usize, buffer_size_bytes: isize) -> (r: IndiceInformation)
        ensures
            r.number_buffers == number_buffers,
            r.buffer_size_bytes == buffer_size_bytes,
    {
        IndiceInformation { number_buffers, buffer_size_bytes }
    }
}

/// Puts the directory `texture_dir` in front of a texture's file name; an empty name, meaning
/// no texture, stays empty.
pub fn append_texture_dir(texture: &mut String, texture_dir: &str)
    ensures
        final(texture)@ == (if old(texture)@.len() == 0 {
            old(texture)@
        } else {
            texture_dir@ + old(texture)@
        }),
{
    if !texture.as_str().is_empty() {
        let mut prefixed = String::from_str(texture_dir);
        prefixed.append(texture.as_str());
        *texture = prefixed;
    }
}

/// A new unique name: the decimal text of the number of names given before, which `counter`
/// holds and which is then counted up.
pub fn generate_random_name(counter: &mut u32) -> (r: String)
    requires
        *old(counter) < u32::MAX,
    ensures
        r@ == decimal_text(*old(counter) as nat),
        *final(counter) == *old(counter) + 1,
{
    let name = decimal_string(*counter as u64);
    *counter = *counter + 1;
    name
}

} // verus!
